use vstd::prelude::*;
use crate::clock::{clock_value_of, clock_view, parse_clock_value, ClockModel, ClockValue};
use crate::document::{attribute_of, NodeModel, XmlNode};
use crate::element::trimmed_attribute;
use crate::text::{split, split_seq, text_eq, trim, trimmed};

verus! {

/// How often an animation repeats, as its `repeatCount` attribute says (or,
/// without one, an indefinite `repeatDur`); the count itself is kept as text.
#[derive(Debug, PartialEq)]
pub enum RepeatSpec {
    /// No `repeatCount`: one iteration.
    Unspecified,
    /// `repeatCount="indefinite"`, or `repeatDur="indefinite"` without a `repeatCount`.
    Indefinite,
    /// Any other `repeatCount`, trimmed.
    Count(String),
}

/// The model of a repeat count.
pub enum RepeatModel {
    Unspecified,
    Indefinite,
    Count(Seq<char>),
}

impl View for RepeatSpec {
    type V = RepeatModel;

    open spec fn view(&self) -> RepeatModel {
        match self {
            RepeatSpec::Unspecified => RepeatModel::Unspecified,
            RepeatSpec::Indefinite => RepeatModel::Indefinite,
            RepeatSpec::Count(t) => RepeatModel::Count(t@),
        }
    }
}

/// What an animation does after its active end.
#[derive(Clone, Copy, Debug, PartialEq, Eq, Structural)]
pub enum AnimationFill {
    /// The animation's effect is removed.
    Remove,
    /// The final value is held.
    Freeze,
}

/// The timing attributes of an animation element, with clock values parsed
/// into their structure.
#[derive(Debug, PartialEq)]
pub struct TimingSpec {
    /// The clock value of each `;`-separated entry of `begin`, in order
    /// (empty without a `begin` attribute); the animation begins at the
    /// earliest of them.
    pub begin: Vec<Option<ClockValue>>,
    /// Duration of a single iteration; `None` means indefinite.
    pub duration: Option<ClockValue>,
    pub repeat: RepeatSpec,
    pub end: Option<ClockValue>,
    pub fill: AnimationFill,
}

/// The model of the timing attributes.
pub struct TimingModel {
    pub begin: Seq<Option<ClockModel>>,
    pub duration: Option<ClockModel>,
    pub repeat: RepeatModel,
    pub end: Option<ClockModel>,
    pub fill: AnimationFill,
}

impl View for TimingSpec {
    type V = TimingModel;

    open spec fn view(&self) -> TimingModel {
        TimingModel {
            begin: clock_views(self.begin@),
            duration: clock_view(self.duration),
            repeat: self.repeat@,
            end: clock_view(self.end),
            fill: self.fill,
        }
    }
}

/// The models of a list of optional clock values.
pub open spec fn clock_views(v: Seq<Option<ClockValue>>) -> Seq<Option<ClockModel>> {
    v.map_values(|c: Option<ClockValue>| clock_view(c))
}

/// A `begin` value: the clock value of each of its `;`-separated entries,
/// trimmed (event and syncbase values are not supported and give no
/// seconds); the animation begins at the earliest of them.
pub open spec fn begin_values_of(text: Seq<char>) -> Seq<Option<ClockModel>> {
    split_seq(text, seq![';']).map_values(|entry: Seq<char>| clock_value_of(trimmed(entry)))
}

/// Parses the entries of a `begin` value.
pub fn parse_begin_value(text: &str) -> (r: Vec<Option<ClockValue>>)
    ensures
        clock_views(r@) == begin_values_of(text@),
{
    let semicolon = [';'];
    assert(semicolon@ =~= seq![';']);
    let parts = split(text, &semicolon);
    let ghost entries = crate::text::views(parts@);
    let mut out: Vec<Option<ClockValue>> = Vec::new();
    let mut i: usize = 0;
    while i < parts.len()
        invariant
            entries == crate::text::views(parts@),
            entries == split_seq(text@, seq![';']),
            i <= entries.len(),
            clock_views(out@) == begin_values_of(text@).take(i as int),
        decreases parts.len() - i,
    {
        let value = parse_clock_value(trim(parts[i].as_str()));
        let ghost before = out@;
        out.push(value);
        assert(entries[i as int] == parts@[i as int]@);
        assert(clock_views(out@) =~= clock_views(before).push(clock_view(value)));
        assert(begin_values_of(text@).take(i + 1) =~= begin_values_of(text@).take(i as int).push(
            clock_view(value),
        ));
        i = i + 1;
    }
    assert(begin_values_of(text@).take(entries.len() as int) =~= begin_values_of(text@));
    out
}

/// The clock value of attribute `name`, trimmed.
pub open spec fn clock_attribute(node: NodeModel, name: Seq<char>) -> Option<ClockModel> {
    match attribute_of(node, name) {
        Some(t) => clock_value_of(trimmed(t)),
        None => None,
    }
}

/// The timing that an animation element's attributes give.
pub open spec fn timing_of(node: NodeModel) -> TimingModel {
    TimingModel {
        begin: match attribute_of(node, "begin"@) {
            Some(t) => begin_values_of(t),
            None => Seq::empty(),
        },
        duration: clock_attribute(node, "dur"@),
        repeat: match trimmed_attribute(node, "repeatCount"@) {
            Some(t) => if t == "indefinite"@ {
                RepeatModel::Indefinite
            } else {
                RepeatModel::Count(t)
            },
            None => if trimmed_attribute(node, "repeatDur"@) == Some("indefinite"@) {
                RepeatModel::Indefinite
            } else {
                RepeatModel::Unspecified
            },
        },
        end: clock_attribute(node, "end"@),
        fill: if trimmed_attribute(node, "fill"@) == Some("freeze"@) {
            AnimationFill::Freeze
        } else {
            AnimationFill::Remove
        },
    }
}

/// Each timing field is read from its own attribute, trimmed: `dur` and `end`
/// give the clock value they hold (none without the attribute), `begin`
/// gives one clock value per `;`-separated entry (none without it), and
/// `fill="freeze"` freezes while anything else removes.
pub proof fn law_timing_reads_its_attributes(node: NodeModel)
    ensures
        attribute_of(node, "end"@) matches Some(t) ==> timing_of(node).end == clock_value_of(
            trimmed(t),
        ),
        attribute_of(node, "end"@) is None ==> timing_of(node).end is None,
        attribute_of(node, "dur"@) matches Some(t) ==> timing_of(node).duration == clock_value_of(
            trimmed(t),
        ),
        attribute_of(node, "dur"@) is None ==> timing_of(node).duration is None,
        attribute_of(node, "begin"@) matches Some(t) ==> {
            let entries = split_seq(t, seq![';']);
            &&& timing_of(node).begin.len() == entries.len()
            &&& forall|i: int|
                0 <= i < entries.len() ==> #[trigger] timing_of(node).begin[i] == clock_value_of(
                    trimmed(entries[i]),
                )
        },
        attribute_of(node, "begin"@) is None ==> timing_of(node).begin.len() == 0,
        (timing_of(node).fill == AnimationFill::Freeze) == (attribute_of(node, "fill"@) matches Some(
            t,
        ) && trimmed(t) == "freeze"@),
{
}

/// How often an animation repeats: `repeatCount="indefinite"` repeats
/// indefinitely, any other `repeatCount` is that count (trimmed); without a
/// `repeatCount`, `repeatDur="indefinite"` repeats indefinitely and anything
/// else gives one iteration.
pub proof fn law_repeat_reads_its_attributes(node: NodeModel)
    ensures
        attribute_of(node, "repeatCount"@) matches Some(t) ==> timing_of(node).repeat == if trimmed(t)
            == "indefinite"@ {
            RepeatModel::Indefinite
        } else {
            RepeatModel::Count(trimmed(t))
        },
        attribute_of(node, "repeatCount"@) is None ==> timing_of(node).repeat == if attribute_of(
            node,
            "repeatDur"@,
        ) matches Some(d) && trimmed(d) == "indefinite"@ {
            RepeatModel::Indefinite
        } else {
            RepeatModel::Unspecified
        },
{
}

/// The clock value of the attribute `name`, trimmed.
fn clock_attribute_value(node: &XmlNode, name: &str) -> (r: Option<ClockValue>)
    ensures
        clock_view(r) == clock_attribute(node@, name@),
{
    match node.attribute(name) {
        Some(t) => parse_clock_value(trim(t)),
        None => None,
    }
}

impl TimingSpec {
    /// Reads the timing attributes of an animation element.
    pub fn parse(node: &XmlNode) -> (r: TimingSpec)
        ensures
            r@ == timing_of(node@),
    {
        let begin = match node.attribute("begin") {
            Some(t) => parse_begin_value(t),
            None => {
                let empty: Vec<Option<ClockValue>> = Vec::new();
                assert(clock_views(empty@) =~= Seq::empty());
                empty
            },
        };
        let duration = clock_attribute_value(node, "dur");
        let repeat = match node.attribute("repeatCount") {
            Some(t) => {
                let t = trim(t);
                if text_eq(t, "indefinite") {
                    RepeatSpec::Indefinite
                } else {
                    RepeatSpec::Count(t.to_owned())
                }
            },
            None => match node.attribute("repeatDur") {
                Some(t) => if text_eq(trim(t), "indefinite") {
                    RepeatSpec::Indefinite
                } else {
                    RepeatSpec::Unspecified
                },
                None => RepeatSpec::Unspecified,
            },
        };
        let end = clock_attribute_value(node, "end");
        let fill = match node.attribute("fill") {
            Some(t) => if text_eq(trim(t), "freeze") {
                AnimationFill::Freeze
            } else {
                AnimationFill::Remove
            },
            None => AnimationFill::Remove,
        };
        TimingSpec { begin, duration, repeat, end, fill }
    }
}

} // verus!
