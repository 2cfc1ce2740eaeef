//! The text format in which metrics are exposed: families of samples with labels.

use crate::reading::Figure;
use crate::text::{begins_with, chars_of};
use vstd::prelude::*;

verus! {

/// One character of a label value, escaped.
pub open spec fn escaped_char(c: char) -> Seq<char> {
    if c == '\\' {
        seq!['\\', '\\']
    } else if c == '"' {
        seq!['\\', '"']
    } else if c == '\n' {
        seq!['\\', 'n']
    } else {
        seq![c]
    }
}

/// A label value, escaped: backslashes, quotes and line feeds are written with a backslash.
pub open spec fn escaped(value: Seq<char>) -> Seq<char>
    decreases value.len(),
{
    if value.len() == 0 {
        Seq::empty()
    } else {
        escaped(value.drop_last()) + escaped_char(value.last())
    }
}

/// Escapes a label value.
pub fn escape_prometheus_label_value(value: &str) -> (text: String)
    ensures
        text@ == escaped(value@),
{
    let chars = chars_of(value);
    let mut text = String::new();
    let mut i: usize = 0;
    assert(value@.take(0) =~= Seq::<char>::empty());
    while i < chars.len()
        invariant
            i <= chars.len(),
            chars@ == value@,
            text@ == escaped(value@.take(i as int)),
        decreases chars.len() - i,
    {
        proof {
            assert(value@.take(i + 1).drop_last() =~= value@.take(i as int));
            assert(value@.take(i + 1).last() == value@[i as int]);
        }
        let ghost earlier = text@;
        let c = chars[i];
        if c == '\\' {
            text.push('\\');
            text.push('\\');
        } else if c == '"' {
            text.push('\\');
            text.push('"');
        } else if c == '\n' {
            text.push('\\');
            text.push('n');
        } else {
            text.push(c);
        }
        assert(text@ =~= earlier + escaped_char(c));
        i = i + 1;
    }
    assert(value@.take(i as int) =~= value@);
    text
}

/// An escaped value holds no line feed, and every quote in it follows a backslash: it can neither
/// end its line nor the quotes around it.
pub proof fn escaping_keeps_a_value_in_its_quotes(value: Seq<char>)
    ensures
        forall|i: int| 0 <= i < escaped(value).len() ==> #[trigger] escaped(value)[i] != '\n',
        forall|i: int|
            0 <= i < escaped(value).len() && #[trigger] escaped(value)[i] == '"' ==> i > 0
                && escaped(value)[i - 1] == '\\',
    decreases value.len(),
{
    if value.len() > 0 {
        let head = escaped(value.drop_last());
        let tail = escaped_char(value.last());
        escaping_keeps_a_value_in_its_quotes(value.drop_last());
        assert forall|i: int| 0 <= i < escaped(value).len() implies #[trigger] escaped(value)[i]
            != '\n' by {
            if i < head.len() {
                assert(escaped(value)[i] == head[i]);
            } else {
                assert(escaped(value)[i] == tail[i - head.len()]);
            }
        }
        assert forall|i: int|
            0 <= i < escaped(value).len() && #[trigger] escaped(value)[i] == '"' implies i > 0
            && escaped(value)[i - 1] == '\\' by {
            if i < head.len() {
                assert(escaped(value)[i] == head[i]);
                assert(escaped(value)[i - 1] == head[i - 1]);
            } else {
                assert(escaped(value)[i] == tail[i - head.len()]);
                assert(i - head.len() == 1);
                assert(escaped(value)[i - 1] == tail[0]);
            }
        }
    }
}

/// How a figure is exposed: its text, or zero when it is not finite.
pub open spec fn figure_text(figure: Figure) -> Seq<char> {
    if figure.reading.finite() {
        figure.text@
    } else {
        "0"@
    }
}

/// How a figure is exposed: a number that is not finite cannot be, and stands as zero.
pub fn sanitize_prometheus_figure(figure: &Figure) -> (text: String)
    ensures
        text@ == figure_text(*figure),
{
    if figure.reading.is_finite() {
        figure.text.clone()
    } else {
        "0".to_owned()
    }
}

/// One sample: its labels, where the family has any, and its value.
#[derive(Debug, PartialEq, Eq)]
pub struct Sample {
    pub labels: Option<Vec<(&'static str, String)>>,
    pub value: String,
}

/// What a sample says.
pub struct SampleView {
    pub labels: Option<Seq<(Seq<char>, Seq<char>)>>,
    pub value: Seq<char>,
}

/// What some labels say.
pub open spec fn label_views(labels: Seq<(&'static str, String)>) -> Seq<(Seq<char>, Seq<char>)> {
    labels.map_values(|label: (&'static str, String)| (label.0@, label.1@))
}

impl View for Sample {
    type V = SampleView;

    open spec fn view(&self) -> SampleView {
        SampleView {
            labels: match self.labels {
                Some(labels) => Some(label_views(labels@)),
                None => None,
            },
            value: self.value@,
        }
    }
}

impl SampleView {
    /// A sample without labels.
    pub open spec fn bare(value: Seq<char>) -> SampleView {
        SampleView { labels: None, value }
    }

    /// A sample with labels.
    pub open spec fn labelled(labels: Seq<(Seq<char>, Seq<char>)>, value: Seq<char>) -> SampleView {
        SampleView { labels: Some(labels), value }
    }
}

impl Sample {
    /// A sample without labels.
    pub fn bare(value: String) -> (sample: Self)
        ensures
            sample@ == SampleView::bare(value@),
    {
        Sample { labels: None, value }
    }

    /// A sample with labels.
    pub fn labelled(labels: Vec<(&'static str, String)>, value: String) -> (sample: Self)
        ensures
            sample@ == SampleView::labelled(label_views(labels@), value@),
    {
        Sample { labels: Some(labels), value }
    }
}

/// A family of samples: its name, what it means, and how it behaves over time.
#[derive(Debug, PartialEq, Eq)]
pub struct Family {
    pub name: &'static str,
    pub help: &'static str,
    pub kind: &'static str,
    pub samples: Vec<Sample>,
}

/// What a family says.
pub struct FamilyView {
    pub name: Seq<char>,
    pub help: Seq<char>,
    pub kind: Seq<char>,
    pub samples: Seq<SampleView>,
}

/// What some samples say.
pub open spec fn sample_views(samples: Seq<Sample>) -> Seq<SampleView> {
    samples.map_values(|sample: Sample| sample@)
}

impl View for Family {
    type V = FamilyView;

    open spec fn view(&self) -> FamilyView {
        FamilyView {
            name: self.name@,
            help: self.help@,
            kind: self.kind@,
            samples: sample_views(self.samples@),
        }
    }
}

/// What some families say.
pub open spec fn family_views(families: Seq<Family>) -> Seq<FamilyView> {
    families.map_values(|family: Family| family@)
}

/// One label, its value escaped and quoted.
pub open spec fn label_text(label: (Seq<char>, Seq<char>)) -> Seq<char> {
    label.0 + "=\""@ + escaped(label.1) + "\""@
}

/// Labels, separated by commas.
pub open spec fn label_list(labels: Seq<(Seq<char>, Seq<char>)>) -> Seq<char>
    decreases labels.len(),
{
    if labels.len() == 0 {
        Seq::empty()
    } else if labels.len() == 1 {
        label_text(labels[0])
    } else {
        label_list(labels.drop_last()) + ","@ + label_text(labels.last())
    }
}

/// A sample as a line of its family.
pub open spec fn sample_line(name: Seq<char>, sample: SampleView) -> Seq<char> {
    match sample.labels {
        None => name + " "@ + sample.value + "\n"@,
        Some(labels) => name + "{"@ + label_list(labels) + "}"@ + " "@ + sample.value + "\n"@,
    }
}

/// Samples as lines of their family.
pub open spec fn sample_lines(name: Seq<char>, samples: Seq<SampleView>) -> Seq<char>
    decreases samples.len(),
{
    if samples.len() == 0 {
        Seq::empty()
    } else {
        sample_lines(name, samples.drop_last()) + sample_line(name, samples.last())
    }
}

/// A family: what it means, how it behaves, and its samples.
pub open spec fn family_text(family: FamilyView) -> Seq<char> {
    "# HELP "@ + family.name + " "@ + family.help + "\n# TYPE "@ + family.name + " "@ + family.kind
        + "\n"@ + sample_lines(family.name, family.samples)
}

/// Families, each followed by an empty line.
pub open spec fn families_text(families: Seq<FamilyView>) -> Seq<char>
    decreases families.len(),
{
    if families.len() == 0 {
        Seq::empty()
    } else {
        families_text(families.drop_last()) + family_text(families.last()) + "\n"@
    }
}

/// Families with an empty line between them.
pub open spec fn families_joined(families: Seq<FamilyView>) -> Seq<char> {
    if families.len() == 0 {
        Seq::empty()
    } else {
        families_text(families.drop_last()) + family_text(families.last())
    }
}

fn render_labels(labels: &[(&'static str, String)]) -> (text: String)
    ensures
        text@ == label_list(label_views(labels@)),
{
    let mut text = String::new();
    let mut i: usize = 0;
    let ghost all = label_views(labels@);
    assert(all.take(0) =~= Seq::<(Seq<char>, Seq<char>)>::empty());
    while i < labels.len()
        invariant
            i <= labels.len(),
            all == label_views(labels@),
            text@ == label_list(all.take(i as int)),
        decreases labels.len() - i,
    {
        proof {
            assert(all.take(i + 1).drop_last() =~= all.take(i as int));
            assert(all.take(i + 1).last() == all[i as int]);
        }
        if i > 0 {
            text.append(",");
        }
        let ghost before = text@;
        text.append(labels[i].0);
        text.append("=\"");
        text.append(escape_prometheus_label_value(labels[i].1.as_str()).as_str());
        text.append("\"");
        assert(text@ =~= before + label_text(all[i as int]));
        i = i + 1;
    }
    assert(all.take(i as int) =~= all);
    text
}

fn render_sample(name: &str, sample: &Sample) -> (line: String)
    ensures
        line@ == sample_line(name@, sample@),
{
    let mut line = name.to_owned();
    match &sample.labels {
        None => {},
        Some(labels) => {
            line.append("{");
            line.append(render_labels(labels.as_slice()).as_str());
            line.append("}");
        },
    }
    line.append(" ");
    line.append(sample.value.as_str());
    line.append("\n");
    line
}

/// Renders one family.
pub fn render_family(family: &Family) -> (text: String)
    ensures
        text@ == family_text(family@),
{
    let mut text = "# HELP ".to_owned();
    text.append(family.name);
    text.append(" ");
    text.append(family.help);
    text.append("\n# TYPE ");
    text.append(family.name);
    text.append(" ");
    text.append(family.kind);
    text.append("\n");
    let mut lines = String::new();
    let mut i: usize = 0;
    let ghost all = sample_views(family.samples@);
    assert(all.take(0) =~= Seq::<SampleView>::empty());
    while i < family.samples.len()
        invariant
            i <= family.samples.len(),
            all == sample_views(family.samples@),
            lines@ == sample_lines(family.name@, all.take(i as int)),
        decreases family.samples.len() - i,
    {
        proof {
            assert(all.take(i + 1).drop_last() =~= all.take(i as int));
            assert(all.take(i + 1).last() == all[i as int]);
        }
        lines.append(render_sample(family.name, &family.samples[i]).as_str());
        i = i + 1;
    }
    assert(all.take(i as int) =~= all);
    text.append(lines.as_str());
    text
}

/// Renders families, each followed by an empty line.
pub fn render_families(families: &[Family]) -> (text: String)
    ensures
        text@ == families_text(family_views(families@)),
{
    let mut text = String::new();
    let mut i: usize = 0;
    let ghost all = family_views(families@);
    assert(all.take(0) =~= Seq::<FamilyView>::empty());
    while i < families.len()
        invariant
            i <= families.len(),
            all == family_views(families@),
            text@ == families_text(all.take(i as int)),
        decreases families.len() - i,
    {
        proof {
            assert(all.take(i + 1).drop_last() =~= all.take(i as int));
            assert(all.take(i + 1).last() == all[i as int]);
        }
        text.append(render_family(&families[i]).as_str());
        text.append("\n");
        i = i + 1;
    }
    assert(all.take(i as int) =~= all);
    text
}

/// Renders families with an empty line between them.
pub fn render_families_joined(families: &[Family]) -> (text: String)
    ensures
        text@ == families_joined(family_views(families@)),
{
    if families.len() == 0 {
        return String::new();
    }
    let last: usize = families.len() - 1;
    let mut text = String::new();
    let mut i: usize = 0;
    let ghost all = family_views(families@);
    assert(all.take(0) =~= Seq::<FamilyView>::empty());
    while i < last
        invariant
            i <= last,
            last == families@.len() - 1,
            all == family_views(families@),
            text@ == families_text(all.take(i as int)),
        decreases last - i,
    {
        proof {
            assert(all.take(i + 1).drop_last() =~= all.take(i as int));
            assert(all.take(i + 1).last() == all[i as int]);
        }
        text.append(render_family(&families[i]).as_str());
        text.append("\n");
        i = i + 1;
    }
    proof {
        assert(all.take(i as int) =~= all.drop_last());
        assert(all.last() == families@[last as int]@);
    }
    text.append(render_family(&families[last]).as_str());
    text
}

/// Adds a sample to some samples.
pub fn push_sample(samples: &mut Vec<Sample>, sample: Sample)
    ensures
        sample_views(final(samples)@) == sample_views(old(samples)@).push(sample@),
{
    samples.push(sample);
    assert(sample_views(samples@) =~= sample_views(old(samples)@).push(sample@));
}

/// Adds a family to some families.
pub fn push_family(families: &mut Vec<Family>, family: Family)
    ensures
        family_views(final(families)@) == family_views(old(families)@).push(family@),
{
    families.push(family);
    assert(family_views(families@) =~= family_views(old(families)@).push(family@));
}

/// What an escaped text stands for: a backslash says what the character behind it means.
pub open spec fn unescaped(text: Seq<char>) -> Seq<char>
    decreases text.len(),
{
    if text.len() == 0 {
        Seq::empty()
    } else if text[0] == '\\' && text.len() >= 2 {
        seq![
            if text[1] == 'n' {
                '\n'
            } else {
                text[1]
            },
        ] + unescaped(text.skip(2))
    } else {
        seq![text[0]] + unescaped(text.drop_first())
    }
}

proof fn lemma_escaped_front(value: Seq<char>)
    requires
        value.len() > 0,
    ensures
        escaped(value) == escaped_char(value[0]) + escaped(value.drop_first()),
    decreases value.len(),
{
    let rest = value.drop_last();
    if rest.len() == 0 {
        assert(escaped(rest) =~= Seq::<char>::empty());
        assert(escaped(value.drop_first()) =~= Seq::<char>::empty());
        assert(escaped(value) =~= escaped_char(value[0]) + escaped(value.drop_first()));
    } else {
        lemma_escaped_front(rest);
        assert(value.drop_first().drop_last() =~= rest.drop_first());
        assert(rest[0] == value[0]);
        assert(escaped(value) =~= escaped_char(value[0]) + escaped(value.drop_first()));
    }
}

/// Escaping is undone by reading the escapes, whatever the text, and so loses nothing: different
/// texts have different escaped forms.
pub proof fn escaping_loses_nothing(value: Seq<char>, other: Seq<char>)
    ensures
        unescaped(escaped(value)) == value,
        escaped(value) == escaped(other) <==> value == other,
    decreases value.len() + other.len(),
{
    lemma_unescaped(value);
    lemma_unescaped(other);
}

proof fn lemma_unescaped(value: Seq<char>)
    ensures
        unescaped(escaped(value)) == value,
    decreases value.len(),
{
    if value.len() == 0 {
        assert(escaped(value) =~= Seq::<char>::empty());
        assert(value =~= Seq::<char>::empty());
    } else {
        let rest = value.drop_first();
        lemma_escaped_front(value);
        lemma_unescaped(rest);
        let head = escaped_char(value[0]);
        let text = escaped(value);
        assert(text[0] == head[0]);
        if head.len() == 2 {
            assert(text[1] == head[1]);
            assert(text.skip(2) =~= escaped(rest));
        } else {
            assert(text.drop_first() =~= escaped(rest));
        }
        assert(seq![value[0]] + rest =~= value);
    }
}

/// A figure is shown as it prints where it is a finite number; anything else is shown as zero.
pub proof fn only_finite_figures_are_printed(figure: Figure)
    ensures
        figure.reading.finite() ==> figure_text(figure) == figure.text@,
        !figure.reading.finite() ==> figure_text(figure) == "0"@,
{
}

/// Every line of a sample begins with the name of its metric and ends with its value and one line
/// feed; the value is apart from what stands before it by a space.
pub proof fn a_sample_is_one_line(name: Seq<char>, sample: SampleView)
    ensures
        begins_with(sample_line(name, sample), name),
        sample_line(name, sample).last() == '\n',
        sample_line(name, sample).skip(
            sample_line(name, sample).len() - sample.value.len() - 2,
        ) == seq![' '] + sample.value + seq!['\n'],
        sample.labels is None ==> sample_line(name, sample).len() == name.len() + sample.value.len()
            + 2,
{
    reveal_strlit(" ");
    reveal_strlit("\n");
    reveal_strlit("{");
    reveal_strlit("}");
    let line = sample_line(name, sample);
    assert(line.take(name.len() as int) =~= name);
    assert(line.skip(line.len() - sample.value.len() - 2) =~= seq![' '] + sample.value + seq![
        '\n',
    ]);
}

} // verus!
