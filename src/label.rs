use vstd::prelude::*;

verus! {

/// A label as declared in a label file, or as reported by the service.
#[derive(Debug, Clone)]
pub struct Label {
    pub color: String,
    pub name: String,
    pub description: Option<String>,
}

/// The label fields exactly as they are sent to the service: no leading `#`
/// on the color, and an empty description where none was given.
#[derive(Debug, Clone, PartialEq, Eq)]
pub struct LabelOptions {
    pub name: String,
    pub color: String,
    pub description: String,
}

/// The contents of a label file.
#[derive(Debug, Clone)]
pub struct Labels {
    pub labels: Vec<Label>,
}

/// A label as plain text.
pub struct LabelView {
    pub color: Seq<char>,
    pub name: Seq<char>,
    pub description: Option<Seq<char>>,
}

/// Transmitted label fields as plain text.
pub struct LabelOptionsView {
    pub name: Seq<char>,
    pub color: Seq<char>,
    pub description: Seq<char>,
}

pub open spec fn opt_view(o: Option<String>) -> Option<Seq<char>> {
    match o {
        Some(s) => Some(s@),
        None => None,
    }
}

impl View for Label {
    type V = LabelView;

    open spec fn view(&self) -> LabelView {
        LabelView { color: self.color@, name: self.name@, description: opt_view(self.description) }
    }
}

impl View for LabelOptions {
    type V = LabelOptionsView;

    open spec fn view(&self) -> LabelOptionsView {
        LabelOptionsView { name: self.name@, color: self.color@, description: self.description@ }
    }
}

pub open spec fn labels_view(s: Seq<Label>) -> Seq<LabelView> {
    s.map_values(|l: Label| l@)
}

/// A color with one leading `#` taken off, if it has one.
pub open spec fn without_pound(c: Seq<char>) -> Seq<char> {
    if c.len() > 0 && c[0] == '#' {
        c.drop_first()
    } else {
        c
    }
}

/// What is transmitted for a label.
pub open spec fn options_of(l: LabelView) -> LabelOptionsView {
    LabelOptionsView {
        name: l.name,
        color: without_pound(l.color),
        description: match l.description {
            Some(d) => d,
            None => Seq::empty(),
        },
    }
}

/// No two labels share a name.
pub open spec fn unique_names(s: Seq<LabelView>) -> bool {
    forall|i: int, j: int| 0 <= i < j < s.len() ==> s[i].name != s[j].name
}

/// Takes one leading `#` off a color; the rest of the text is kept as it is.
pub fn no_pound(color: &str) -> (r: String)
    ensures
        r@ == without_pound(color@),
{
    let n = color.unicode_len();
    if n > 0 && color.get_char(0) == '#' {
        let rest = color.substring_char(1, n);
        proof {
            assert(rest@ =~= color@.drop_first());
        }
        String::from_str(rest)
    } else {
        String::from_str(color)
    }
}

pub fn copy_string(s: &String) -> (r: String)
    ensures
        r@ == s@,
{
    s.clone()
}

pub fn copy_opt_string(o: &Option<String>) -> (r: Option<String>)
    ensures
        opt_view(r) == opt_view(*o),
{
    match o {
        Some(s) => Some(s.clone()),
        None => None,
    }
}

fn opt_string_eq(a: &Option<String>, b: &Option<String>) -> (r: bool)
    ensures
        r == (opt_view(*a) == opt_view(*b)),
{
    match (a, b) {
        (Some(x), Some(y)) => *x == *y,
        (None, None) => true,
        _ => false,
    }
}

impl Label {
    pub fn new(color: String, name: String, description: Option<String>) -> (r: Label)
        ensures
            r@ == (LabelView { color: color@, name: name@, description: opt_view(description) }),
    {
        Label { color, name, description }
    }

    /// A copy with the same fields.
    pub fn duplicate(&self) -> (r: Label)
        ensures
            r@ == self@,
    {
        Label {
            color: copy_string(&self.color),
            name: copy_string(&self.name),
            description: copy_opt_string(&self.description),
        }
    }

    /// The fields to transmit: the color without its leading `#`, and the
    /// description, or an empty one where the label has none.
    pub fn to_label_options(&self) -> (r: LabelOptions)
        ensures
            r@ == options_of(self@),
    {
        let description = match &self.description {
            Some(d) => d.clone(),
            None => String::new(),
        };
        LabelOptions { color: no_pound(self.color.as_str()), name: self.name.clone(), description }
    }
}

impl Label {
    /// The label for fields as transmitted: the color loses its leading `#`
    /// and the description is kept as given.
    pub fn from_options(o: &LabelOptions) -> (r: Label)
        ensures
            r@ == (LabelView {
                color: without_pound(o.color@),
                name: o.name@,
                description: Some(o.description@),
            }),
    {
        Label {
            color: no_pound(o.color.as_str()),
            name: copy_string(&o.name),
            description: Some(copy_string(&o.description)),
        }
    }
}

impl LabelOptions {
    pub fn duplicate(&self) -> (r: LabelOptions)
        ensures
            r@ == self@,
    {
        LabelOptions {
            name: copy_string(&self.name),
            color: copy_string(&self.color),
            description: copy_string(&self.description),
        }
    }
}

fn label_eq(a: &Label, b: &Label) -> (r: bool)
    ensures
        r == (a@ == b@),
{
    a.color == b.color && a.name == b.name && opt_string_eq(&a.description, &b.description)
}

impl PartialEq for Label {
    fn eq(&self, other: &Label) -> (r: bool) {
        label_eq(self, other)
    }
}

impl vstd::std_specs::cmp::PartialEqSpecImpl for Label {
    open spec fn obeys_eq_spec() -> bool {
        true
    }

    open spec fn eq_spec(&self, other: &Label) -> bool {
        self@ == other@
    }
}

impl Labels {
    /// A name that two declared labels share, if any does.
    pub fn duplicate_name(&self) -> (r: Option<String>)
        ensures
            r is None <==> unique_names(labels_view(self.labels@)),
            r matches Some(n) ==> exists|i: int, j: int|
                0 <= i < j < self.labels@.len() && #[trigger] self.labels@[i].name@ == n@
                    && #[trigger] self.labels@[j].name@ == n@,
    {
        let ghost v = labels_view(self.labels@);
        let n = self.labels.len();
        let mut j: usize = 0;
        while j < n
            invariant
                n == self.labels@.len(),
                v == labels_view(self.labels@),
                j <= n,
                forall|a: int, b: int| 0 <= a < b < j ==> v[a].name != v[b].name,
            decreases n - j,
        {
            let mut i: usize = 0;
            while i < j
                invariant
                    n == self.labels@.len(),
                    v == labels_view(self.labels@),
                    i <= j < n,
                    forall|a: int| 0 <= a < i ==> v[a].name != v[j as int].name,
                decreases j - i,
            {
                if self.labels[i].name == self.labels[j].name {
                    assert(v[i as int].name == v[j as int].name);
                    return Some(copy_string(&self.labels[j].name));
                }
                assert(v[i as int].name != v[j as int].name);
                i = i + 1;
            }
            j = j + 1;
        }
        None
    }
}

fn labels_eq(a: &Vec<Label>, b: &Vec<Label>) -> (r: bool)
    ensures
        r == (labels_view(a@) == labels_view(b@)),
{
    if a.len() != b.len() {
        assert(labels_view(a@).len() != labels_view(b@).len());
        return false;
    }
    let mut i: usize = 0;
    while i < a.len()
        invariant
            a.len() == b.len(),
            i <= a.len(),
            forall|k: int| 0 <= k < i ==> labels_view(a@)[k] == labels_view(b@)[k],
        decreases a.len() - i,
    {
        if !label_eq(&a[i], &b[i]) {
            assert(labels_view(a@)[i as int] != labels_view(b@)[i as int]);
            return false;
        }
        i = i + 1;
    }
    assert(labels_view(a@) =~= labels_view(b@));
    true
}

impl PartialEq for Labels {
    fn eq(&self, other: &Labels) -> (r: bool) {
        labels_eq(&self.labels, &other.labels)
    }
}

impl vstd::std_specs::cmp::PartialEqSpecImpl for Labels {
    open spec fn obeys_eq_spec() -> bool {
        true
    }

    open spec fn eq_spec(&self, other: &Labels) -> bool {
        labels_view(self.labels@) == labels_view(other.labels@)
    }
}

} // verus!
