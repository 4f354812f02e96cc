//! Project templates: the embedded ones and the custom ones that users keep in
//! their templates directory.

use vstd::prelude::*;
use crate::errors::FailureKind;
use crate::text::{chars_of, remove_spaces, without_spaces};
use crate::state::CreateTemplateData;

verus! {

/// The templates that ship with the tool.
#[derive(Clone, Copy, Debug, PartialEq, Eq, PartialOrd, Ord)]
pub enum EmbeddedTemplate {
    Empty,
    Default,
}

/// A template a project can start from: an embedded one, or a custom one by
/// its directory name.
#[derive(Clone, Debug, PartialEq, Eq, PartialOrd, Ord)]
pub enum Template {
    Embedded(EmbeddedTemplate),
    Custom(String),
}

/// Why a template name or a template operation was refused.
#[derive(Clone, Copy, Debug, PartialEq, Eq)]
pub enum TemplateError {
    /// The name is empty.
    EmptyName,
    /// The name holds nothing but spaces.
    WhitespaceName,
    /// Another template already has the name.
    NameTaken,
    /// Embedded templates cannot be edited.
    EditEmbedded,
    /// Embedded templates cannot be deleted.
    DeleteEmbedded,
}

/// The directory name of an embedded template.
pub open spec fn embedded_name(t: EmbeddedTemplate) -> Seq<char> {
    match t {
        EmbeddedTemplate::Empty => "empty"@,
        EmbeddedTemplate::Default => "default"@,
    }
}

/// The name under which a template is shown and stored.
pub open spec fn name_of_template(t: Template) -> Seq<char> {
    match t {
        Template::Embedded(e) => embedded_name(e),
        Template::Custom(n) => n@,
    }
}

/// Whether some template of `templates` is called `name`.
pub open spec fn name_taken(name: Seq<char>, templates: Seq<Template>) -> bool {
    exists|i: int| 0 <= i < templates.len() && name_of_template(#[trigger] templates[i]) == name
}

/// What a new template name is refused for, if anything: an empty name, then a
/// name of spaces only, then a name that is taken.
pub open spec fn name_check(name: Seq<char>, templates: Seq<Template>) -> Result<(), TemplateError> {
    if name.len() == 0 {
        Err(TemplateError::EmptyName)
    } else if without_spaces(name).len() == 0 {
        Err(TemplateError::WhitespaceName)
    } else if name_taken(name, templates) {
        Err(TemplateError::NameTaken)
    } else {
        Ok(())
    }
}

impl TemplateError {
    /// The kind under which the failure is reported.
    pub fn kind(&self) -> (r: FailureKind)
        ensures
            r == (match *self {
                TemplateError::EmptyName | TemplateError::WhitespaceName => FailureKind::InvalidData,
                TemplateError::NameTaken => FailureKind::AlreadyExists,
                _ => FailureKind::InvalidInput,
            }),
    {
        match self {
            TemplateError::EmptyName | TemplateError::WhitespaceName => FailureKind::InvalidData,
            TemplateError::NameTaken => FailureKind::AlreadyExists,
            _ => FailureKind::InvalidInput,
        }
    }

    /// The message shown for the failure.
    pub fn message(&self) -> (r: &'static str)
        ensures
            r@ == (match *self {
                TemplateError::EmptyName => "Template name cannot be empty"@,
                TemplateError::WhitespaceName => "Template name cannot consist of whitespace only"@,
                TemplateError::NameTaken => "A template with this name already exists"@,
                TemplateError::EditEmbedded => "Cannot Edit an Embedded template"@,
                TemplateError::DeleteEmbedded => "Cannot Delete an Embedded template"@,
            }),
    {
        match self {
            TemplateError::EmptyName => "Template name cannot be empty",
            TemplateError::WhitespaceName => "Template name cannot consist of whitespace only",
            TemplateError::NameTaken => "A template with this name already exists",
            TemplateError::EditEmbedded => "Cannot Edit an Embedded template",
            TemplateError::DeleteEmbedded => "Cannot Delete an Embedded template",
        }
    }
}

impl EmbeddedTemplate {
    /// The directory name of the template.
    pub fn name(&self) -> (r: &'static str)
        ensures
            r@ == embedded_name(*self),
    {
        match self {
            EmbeddedTemplate::Empty => "empty",
            EmbeddedTemplate::Default => "default",
        }
    }

    /// Every embedded template, in the order they are offered.
    pub fn all() -> (r: &'static [EmbeddedTemplate])
        ensures
            r@ == seq![EmbeddedTemplate::Empty, EmbeddedTemplate::Default],
    {
        &[EmbeddedTemplate::Empty, EmbeddedTemplate::Default]
    }
}

impl Template {
    /// The name of the template.
    pub fn name(&self) -> (r: String)
        ensures
            r@ == name_of_template(*self),
    {
        match self {
            Template::Embedded(t) => t.name().to_owned(),
            Template::Custom(name) => name.clone(),
        }
    }

    /// Refuses a template name that is empty or made of spaces only.
    pub fn has_valid_name(template_name: &String) -> (r: Result<(), TemplateError>)
        ensures
            r == (if template_name@.len() == 0 {
                Err(TemplateError::EmptyName)
            } else if without_spaces(template_name@).len() == 0 {
                Err(TemplateError::WhitespaceName)
            } else {
                Ok::<(), TemplateError>(())
            }),
    {
        if template_name.as_str().is_empty() {
            return Err(TemplateError::EmptyName);
        }
        let stripped = remove_spaces(template_name.as_str());
        if stripped.as_str().is_empty() {
            return Err(TemplateError::WhitespaceName);
        }
        Ok(())
    }

    /// Refuses a template name that one of `existing_templates` already has.
    pub fn is_unique(template_name: &String, existing_templates: &Vec<Template>) -> (r: Result<
        (),
        TemplateError,
    >)
        ensures
            r == (if name_taken(template_name@, existing_templates@) {
                Err(TemplateError::NameTaken)
            } else {
                Ok::<(), TemplateError>(())
            }),
    {
        for i in 0..existing_templates.len()
            invariant
                forall|j: int|
                    0 <= j < i ==> name_of_template(#[trigger] existing_templates@[j])
                        != template_name@,
        {
            let name = existing_templates[i].name();
            if name == *template_name {
                return Err(TemplateError::NameTaken);
            }
        }
        Ok(())
    }

    /// Whether `template_name` can name a new template next to
    /// `existing_templates`: it must be valid and unique.
    pub fn has_sufficient_info(template_name: &String, existing_templates: &Vec<Template>) -> (r:
        Result<(), TemplateError>)
        ensures
            r == name_check(template_name@, existing_templates@),
    {
        Self::has_valid_name(template_name)?;
        Self::is_unique(template_name, existing_templates)?;
        Ok(())
    }

    /// Checks the name asked for in `create_data` and gives the name of the
    /// template directory to create.
    pub fn create_custom_template(create_data: &CreateTemplateData, existing_templates: &Vec<
        Template,
    >) -> (r: Result<String, TemplateError>)
        ensures
            name_check(create_data.template_name@, existing_templates@) matches Err(e) ==> r
                == Err::<String, TemplateError>(e),
            name_check(create_data.template_name@, existing_templates@) is Ok ==> (r matches Ok(n)
                && n@ == create_data.template_name@),
    {
        Self::has_sufficient_info(&create_data.template_name, existing_templates)?;
        Ok(create_data.template_name.clone())
    }

    /// The renaming that editing this template into `new_template_info` means:
    /// the old and the new template name. Embedded templates cannot be edited.
    pub fn edit_custom_template(&self, new_template_info: Template) -> (r: Result<
        (String, String),
        TemplateError,
    >)
        ensures
            self is Embedded ==> r == Err::<(String, String), TemplateError>(
                TemplateError::EditEmbedded,
            ),
            self is Custom ==> (r matches Ok((old, new)) && old@ == name_of_template(*self) && new@
                == name_of_template(new_template_info)),
    {
        if let Template::Embedded(_) = self {
            return Err(TemplateError::EditEmbedded);
        }
        Ok((self.name(), new_template_info.name()))
    }

    /// The template directory that deleting this template removes. Embedded
    /// templates cannot be deleted.
    pub fn delete_custom_template(&self) -> (r: Result<String, TemplateError>)
        ensures
            self is Embedded ==> r == Err::<String, TemplateError>(TemplateError::DeleteEmbedded),
            self is Custom ==> (r matches Ok(n) && n@ == name_of_template(*self)),
    {
        if let Template::Embedded(_) = self {
            return Err(TemplateError::DeleteEmbedded);
        }
        Ok(self.name())
    }
}

/// Once a template has been created under a name that the checks accepted, the
/// same name is refused as taken.
pub proof fn law_created_name_is_taken(name: Seq<char>, templates: Seq<Template>, created: Template)
    requires
        name_check(name, templates) is Ok,
        name_of_template(created) == name,
    ensures
        name_check(name, templates.push(created)) == Err::<(), TemplateError>(
            TemplateError::NameTaken,
        ),
{
    let t2 = templates.push(created);
    assert(name_of_template(t2[templates.len() as int]) == name);
}

/// Whether the text `a` sorts before or equal to `b`: the order of `String`,
/// character by character, a prefix first.
pub open spec fn text_le(a: Seq<char>, b: Seq<char>) -> bool
    decreases a.len(),
{
    if a.len() == 0 {
        true
    } else if b.len() == 0 {
        false
    } else if a[0] != b[0] {
        a[0] < b[0]
    } else {
        text_le(a.drop_first(), b.drop_first())
    }
}

/// Of any two texts, one sorts before or equal to the other.
pub proof fn lemma_text_le_total(a: Seq<char>, b: Seq<char>)
    ensures
        text_le(a, b) || text_le(b, a),
    decreases a.len(),
{
    if a.len() > 0 && b.len() > 0 && a[0] == b[0] {
        lemma_text_le_total(a.drop_first(), b.drop_first());
    }
}

/// The order of texts is transitive.
pub proof fn lemma_text_le_transitive(a: Seq<char>, b: Seq<char>, c: Seq<char>)
    requires
        text_le(a, b),
        text_le(b, c),
    ensures
        text_le(a, c),
    decreases a.len(),
{
    if a.len() > 0 && b.len() > 0 && c.len() > 0 && a[0] == b[0] && b[0] == c[0] {
        lemma_text_le_transitive(a.drop_first(), b.drop_first(), c.drop_first());
    }
}

/// Whether `a` sorts before or equal to `b`.
pub fn text_le_exec(a: &Vec<char>, b: &Vec<char>) -> (r: bool)
    ensures
        r == text_le(a@, b@),
{
    let mut i: usize = 0;
    assert(a@.subrange(0, a.len() as int) =~= a@);
    assert(b@.subrange(0, b.len() as int) =~= b@);
    while i < a.len() && i < b.len() && a[i] == b[i]
        invariant
            i <= a.len(),
            i <= b.len(),
            text_le(a@, b@) == text_le(
                a@.subrange(i as int, a.len() as int),
                b@.subrange(i as int, b.len() as int),
            ),
        decreases a.len() - i,
    {
        assert(a@.subrange(i as int, a.len() as int).drop_first() =~= a@.subrange(
            i + 1,
            a.len() as int,
        ));
        assert(b@.subrange(i as int, b.len() as int).drop_first() =~= b@.subrange(
            i + 1,
            b.len() as int,
        ));
        i = i + 1;
    }
    if i == a.len() {
        true
    } else if i == b.len() {
        false
    } else {
        a[i] < b[i]
    }
}

/// Whether the texts are in ascending order.
pub open spec fn texts_sorted(s: Seq<Seq<char>>) -> bool {
    forall|i: int, j: int| 0 <= i < j < s.len() ==> text_le(#[trigger] s[i], #[trigger] s[j])
}

/// The characters of each string.
pub open spec fn views(s: Seq<String>) -> Seq<Seq<char>> {
    s.map_values(|x: String| x@)
}

/// The names in ascending order (insertion sort).
pub fn sort_names(names: Vec<String>) -> (r: Vec<String>)
    ensures
        texts_sorted(views(r@)),
        views(r@).to_multiset() == views(names@).to_multiset(),
{
    let mut sorted: Vec<String> = Vec::new();
    let mut keys: Vec<Vec<char>> = Vec::new();
    let n = names.len();
    let mut rest = names;
    let ghost all = views(rest@);
    let mut taken: usize = 0;
    assert(views(sorted@) =~= all.take(0));
    while taken < n
        invariant
            n == rest.len(),
            all == views(rest@),
            taken <= n,
            keys.len() == sorted.len(),
            forall|i: int| 0 <= i < keys.len() ==> #[trigger] keys@[i]@ == sorted@[i]@,
            texts_sorted(views(sorted@)),
            views(sorted@).to_multiset() == all.take(taken as int).to_multiset(),
        decreases n - taken,
    {
        let x = rest[taken].clone();
        let kx = chars_of(x.as_str());
        let mut p: usize = 0;
        while p < keys.len() && text_le_exec(&keys[p], &kx)
            invariant
                p <= keys.len(),
                keys.len() == sorted.len(),
                forall|i: int| 0 <= i < keys.len() ==> #[trigger] keys@[i]@ == sorted@[i]@,
                forall|i: int| 0 <= i < p ==> text_le(#[trigger] sorted@[i]@, x@),
                kx@ == x@,
            decreases keys.len() - p,
        {
            p = p + 1;
        }
        let ghost old_views = views(sorted@);
        proof {
            if p < keys.len() {
                lemma_text_le_total(sorted@[p as int]@, x@);
            }
            assert forall|i: int, j: int|
                0 <= i < j < old_views.len() + 1 implies text_le(
                #[trigger] old_views.insert(p as int, x@)[i],
                #[trigger] old_views.insert(p as int, x@)[j],
            ) by {
                let s2 = old_views.insert(p as int, x@);
                if i < p && j == p {
                    assert(s2[i] == old_views[i]);
                } else if i < p && j > p {
                    assert(s2[i] == old_views[i]);
                    assert(s2[j] == old_views[j - 1]);
                } else if i == p {
                    assert(s2[j] == old_views[j - 1]);
                    if j - 1 > p {
                        assert(text_le(old_views[p as int], old_views[j - 1]));
                        lemma_text_le_transitive(x@, old_views[p as int], old_views[j - 1]);
                    }
                } else if i > p {
                    assert(s2[i] == old_views[i - 1]);
                    assert(s2[j] == old_views[j - 1]);
                } else {
                    assert(s2[i] == old_views[i]);
                    assert(s2[j] == old_views[j]);
                }
            }
            vstd::seq_lib::to_multiset_insert(old_views, p as int, x@);
            assert(all.take(taken + 1) =~= all.take(taken as int).push(x@));
            vstd::seq_lib::to_multiset_build(all.take(taken as int), x@);
        }
        sorted.insert(p, x);
        keys.insert(p, kx);
        assert(views(sorted@) =~= old_views.insert(p as int, sorted@[p as int]@));
        taken = taken + 1;
    }
    assert(all.take(n as int) =~= all);
    sorted
}

/// The custom templates of the given directory names, sorted by name.
pub fn templates_from_names(names: Vec<String>) -> (r: Vec<Template>)
    ensures
        forall|i: int| 0 <= i < r.len() ==> #[trigger] r@[i] is Custom,
        forall|i: int, j: int|
            0 <= i < j < r.len() ==> text_le(
                name_of_template(#[trigger] r@[i]),
                name_of_template(#[trigger] r@[j]),
            ),
        r@.map_values(|t: Template| name_of_template(t)).to_multiset() == views(
            names@,
        ).to_multiset(),
{
    let sorted = sort_names(names);
    let mut r: Vec<Template> = Vec::new();
    for i in 0..sorted.len()
        invariant
            r.len() == i,
            forall|j: int| 0 <= j < i ==> #[trigger] r@[j] == Template::Custom(sorted@[j]),
    {
        r.push(Template::Custom(sorted[i].clone()));
    }
    assert(r@.map_values(|t: Template| name_of_template(t)) =~= views(sorted@));
    proof {
        assert forall|i: int, j: int| 0 <= i < j < r.len() implies text_le(
            name_of_template(#[trigger] r@[i]),
            name_of_template(#[trigger] r@[j]),
        ) by {
            assert(views(sorted@)[i] == sorted@[i]@);
            assert(views(sorted@)[j] == sorted@[j]@);
        }
    }
    r
}

} // verus!
