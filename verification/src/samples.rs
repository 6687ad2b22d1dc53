//! The sample A2UI surfaces the development test harness sends: their
//! components, layout, actions and data, for each sample kind. Writing them
//! out as JSON messages is the caller's part.

use vstd::prelude::*;
use crate::api::SampleKind;
use crate::text::{lit, strings_view};

verus! {

broadcast use vstd::string::group_string_axioms;

/// A value a sample component binds: a literal text, or a path into the
/// surface's data model.
#[derive(Debug, Clone)]
pub enum SampleValue {
    Literal(String),
    Path(String),
}

/// The widget a sample component shows.
#[derive(Debug, Clone)]
pub enum SampleWidget {
    /// A text with an optional style hint.
    Text { text: String, usage_hint: Option<String> },
    /// A column of the listed components.
    Column { children: Vec<String> },
    /// A row of the listed components, spread by `distribution`.
    Row { children: Vec<String>, distribution: String },
    /// A button showing component `child`; it reports `action` with the
    /// given context values.
    Button { child: String, primary: bool, action: String, context: Vec<(String, SampleValue)> },
    /// A card around component `child`.
    Card { child: String },
    /// A text field with a label, bound to a data path.
    TextField { label: String, path: String, field_type: String },
    /// A choice among (label, value) options, with nothing selected yet.
    MultipleChoice { options: Vec<(String, String)>, max_selections: u64 },
}

/// A component of a sample surface.
#[derive(Debug, Clone)]
pub struct SampleComponent {
    pub id: String,
    pub widget: SampleWidget,
}

/// A sample surface: its components (rendering starts from "root"), and
/// the data model entries set under a path before rendering, if any.
#[derive(Debug, Clone)]
pub struct SampleSurface {
    pub components: Vec<SampleComponent>,
    pub data: Option<(String, Vec<(String, String)>)>,
}

// ---------------------------------------------------------------------------
// What the components are
// ---------------------------------------------------------------------------

/// A bound value as (is a data path, text).
pub open spec fn value_view(v: SampleValue) -> (bool, Seq<char>) {
    match v {
        SampleValue::Literal(t) => (false, t@),
        SampleValue::Path(p) => (true, p@),
    }
}

/// A button's context as (key, bound value) views.
pub open spec fn context_view(c: Seq<(String, SampleValue)>) -> Seq<(Seq<char>, (bool, Seq<char>))> {
    Seq::new(c.len(), |i: int| (c[i].0@, value_view(c[i].1)))
}

/// (label, value) pairs as texts.
pub open spec fn options_view(o: Seq<(String, String)>) -> Seq<(Seq<char>, Seq<char>)> {
    Seq::new(o.len(), |i: int| (o[i].0@, o[i].1@))
}

/// `c` is the text `text` with ID `id` and style hint `hint`.
pub open spec fn text_is(c: SampleComponent, id: Seq<char>, text: Seq<char>, hint: Option<Seq<char>>) -> bool {
    &&& c.id@ == id
    &&& c.widget matches SampleWidget::Text { text: t, usage_hint: h } && t@ == text
        && crate::agent_rpc::opt_view(h) == hint
}

/// `c` is the column `id` listing `children`.
pub open spec fn column_is(c: SampleComponent, id: Seq<char>, children: Seq<Seq<char>>) -> bool {
    &&& c.id@ == id
    &&& c.widget matches SampleWidget::Column { children: ch } && strings_view(ch@) == children
}

/// `c` is the row `id` listing `children`, spread by `distribution`.
pub open spec fn row_is(c: SampleComponent, id: Seq<char>, children: Seq<Seq<char>>, distribution: Seq<char>) -> bool {
    &&& c.id@ == id
    &&& c.widget matches SampleWidget::Row { children: ch, distribution: d } && strings_view(ch@)
        == children && d@ == distribution
}

/// `c` is the button `id` showing `child` that reports `action` with
/// `context`.
pub open spec fn button_is(
    c: SampleComponent,
    id: Seq<char>,
    child: Seq<char>,
    primary: bool,
    action: Seq<char>,
    context: Seq<(Seq<char>, (bool, Seq<char>))>,
) -> bool {
    &&& c.id@ == id
    &&& c.widget matches SampleWidget::Button { child: ch, primary: p, action: a, context: cx } && ch@
        == child && p == primary && a@ == action && context_view(cx@) == context
}

/// `c` is the card `id` around `child`.
pub open spec fn card_is(c: SampleComponent, id: Seq<char>, child: Seq<char>) -> bool {
    &&& c.id@ == id
    &&& c.widget matches SampleWidget::Card { child: ch } && ch@ == child
}

/// `c` is the short text field `id` labelled `label`, bound to `path`.
pub open spec fn field_is(c: SampleComponent, id: Seq<char>, label: Seq<char>, path: Seq<char>) -> bool {
    &&& c.id@ == id
    &&& c.widget matches SampleWidget::TextField { label: l, path: p, field_type: t } && l@ == label
        && p@ == path && t@ == "shortText"@
}

/// `c` is the choice `id` among `options`, allowing `max` selections.
pub open spec fn choice_is(c: SampleComponent, id: Seq<char>, options: Seq<(Seq<char>, Seq<char>)>, max: u64) -> bool {
    &&& c.id@ == id
    &&& c.widget matches SampleWidget::MultipleChoice { options: o, max_selections: m } && options_view(o@)
        == options && m == max
}

// ---------------------------------------------------------------------------
// Well-formedness
// ---------------------------------------------------------------------------

/// The component IDs a widget refers to.
pub open spec fn widget_refs(w: SampleWidget) -> Seq<Seq<char>> {
    match w {
        SampleWidget::Column { children } => strings_view(children@),
        SampleWidget::Row { children, .. } => strings_view(children@),
        SampleWidget::Button { child, .. } => seq![child@],
        SampleWidget::Card { child } => seq![child@],
        _ => Seq::empty(),
    }
}

/// Some component of `s` has the ID `id`.
pub open spec fn has_component(s: SampleSurface, id: Seq<char>) -> bool {
    exists|i: int| 0 <= i < s.components@.len() && #[trigger] s.components@[i].id@ == id
}

/// A surface renders: it has a "root" component, and every component that
/// another one lists or shows is one of its components.
pub open spec fn well_formed(s: SampleSurface) -> bool {
    &&& has_component(s, "root"@)
    &&& forall|i: int, j: int|
        0 <= i < s.components@.len() && 0 <= j < widget_refs(s.components@[i].widget).len()
            ==> has_component(s, #[trigger] widget_refs(s.components@[i].widget)[j])
}

// ---------------------------------------------------------------------------
// Building the samples
// ---------------------------------------------------------------------------

fn text(id: &str, t: &str, hint: Option<&str>) -> (r: SampleComponent)
    ensures
        text_is(r, id@, t@, match hint {
            Some(h) => Some(h@),
            None => None,
        }),
{
    let usage_hint = match hint {
        Some(h) => Some(lit(h)),
        None => None,
    };
    SampleComponent { id: lit(id), widget: SampleWidget::Text { text: lit(t), usage_hint } }
}

fn button(id: &str, child: &str, primary: bool, action: &str, context: Vec<(String, SampleValue)>) -> (r:
    SampleComponent)
    ensures
        button_is(r, id@, child@, primary, action@, context_view(context@)),
{
    SampleComponent {
        id: lit(id),
        widget: SampleWidget::Button { child: lit(child), primary, action: lit(action), context },
    }
}

fn choice_context(value: &str) -> (r: Vec<(String, SampleValue)>)
    ensures
        context_view(r@) == seq![("value"@, (false, value@))],
{
    let r = vec![(lit("value"), SampleValue::Literal(lit(value)))];
    assert(context_view(r@) =~= seq![("value"@, (false, value@))]);
    r
}

fn strings2(a: &str, b: &str) -> (r: Vec<String>)
    ensures
        strings_view(r@) == seq![a@, b@],
{
    let r = vec![lit(a), lit(b)];
    assert(strings_view(r@) =~= seq![a@, b@]);
    r
}

fn strings3(a: &str, b: &str, c: &str) -> (r: Vec<String>)
    ensures
        strings_view(r@) == seq![a@, b@, c@],
{
    let r = vec![lit(a), lit(b), lit(c)];
    assert(strings_view(r@) =~= seq![a@, b@, c@]);
    r
}

fn strings4(a: &str, b: &str, c: &str, d: &str) -> (r: Vec<String>)
    ensures
        strings_view(r@) == seq![a@, b@, c@, d@],
{
    let r = vec![lit(a), lit(b), lit(c), lit(d)];
    assert(strings_view(r@) =~= seq![a@, b@, c@, d@]);
    r
}

fn col(id: &str, children: Vec<String>) -> (r: SampleComponent)
    ensures
        column_is(r, id@, strings_view(children@)),
{
    SampleComponent { id: lit(id), widget: SampleWidget::Column { children } }
}

/// The "simple_text" sample: a heading and a body text.
pub open spec fn simple_text_is(s: SampleSurface) -> bool {
    &&& s.components@.len() == 3
    &&& column_is(s.components@[0], "root"@, seq!["title"@, "content"@])
    &&& text_is(s.components@[1], "title"@, "Hello from A2UI!"@, Some("h2"@))
    &&& text_is(s.components@[2], "content"@, "This is a test A2UI surface rendered in Octo."@, Some("body"@))
    &&& s.data is None
}

/// The "button_group" sample: a question and a row of three choice buttons,
/// the middle one primary, each reporting "select" with its option.
pub open spec fn button_group_is(s: SampleSurface) -> bool {
    &&& s.components@.len() == 9
    &&& column_is(s.components@[0], "root"@, seq!["question"@, "buttons"@])
    &&& text_is(s.components@[1], "question"@, "Which option do you prefer?"@, Some("body"@))
    &&& row_is(s.components@[2], "buttons"@, seq!["btn1"@, "btn2"@, "btn3"@], "spaceEvenly"@)
    &&& button_is(s.components@[3], "btn1"@, "btn1_text"@, false, "select"@, seq![("value"@, (false, "option1"@))])
    &&& text_is(s.components@[4], "btn1_text"@, "Option 1"@, None)
    &&& button_is(s.components@[5], "btn2"@, "btn2_text"@, true, "select"@, seq![("value"@, (false, "option2"@))])
    &&& text_is(s.components@[6], "btn2_text"@, "Option 2"@, None)
    &&& button_is(s.components@[7], "btn3"@, "btn3_text"@, false, "select"@, seq![("value"@, (false, "option3"@))])
    &&& text_is(s.components@[8], "btn3_text"@, "Option 3"@, None)
    &&& s.data is None
}

/// The "form" sample: a card holding a contact form with name and email
/// fields and a primary submit button reporting both; the fields' data
/// starts empty under "/form".
pub open spec fn form_is(s: SampleSurface) -> bool {
    &&& s.components@.len() == 7
    &&& card_is(s.components@[0], "root"@, "form_content"@)
    &&& column_is(s.components@[1], "form_content"@, seq!["title"@, "name_field"@, "email_field"@, "submit_btn"@])
    &&& text_is(s.components@[2], "title"@, "Contact Form"@, Some("h3"@))
    &&& field_is(s.components@[3], "name_field"@, "Name"@, "/form/name"@)
    &&& field_is(s.components@[4], "email_field"@, "Email"@, "/form/email"@)
    &&& button_is(
        s.components@[5],
        "submit_btn"@,
        "submit_text"@,
        true,
        "submit_form"@,
        seq![("name"@, (true, "/form/name"@)), ("email"@, (true, "/form/email"@))],
    )
    &&& text_is(s.components@[6], "submit_text"@, "Submit"@, None)
    &&& s.data matches Some((path, entries)) && path@ == "/form"@ && crate::container::pairs_view(entries@)
        == seq![("name"@, Seq::<char>::empty()), ("email"@, Seq::<char>::empty())]
}

/// The "card" sample: a card holding a heading, a description and a primary
/// button reporting "card_action".
pub open spec fn card_sample_is(s: SampleSurface) -> bool {
    &&& s.components@.len() == 6
    &&& card_is(s.components@[0], "root"@, "card_content"@)
    &&& column_is(s.components@[1], "card_content"@, seq!["card_title"@, "card_body"@, "card_btn"@])
    &&& text_is(s.components@[2], "card_title"@, "Sample Card"@, Some("h3"@))
    &&& text_is(s.components@[3], "card_body"@, "Cards group related content and actions."@, Some("body"@))
    &&& button_is(s.components@[4], "card_btn"@, "card_btn_text"@, true, "card_action"@, Seq::empty())
    &&& text_is(s.components@[5], "card_btn_text"@, "Open"@, None)
    &&& s.data is None
}

/// The "question" sample: a question and a single choice among four
/// frameworks.
pub open spec fn question_is(s: SampleSurface) -> bool {
    &&& s.components@.len() == 3
    &&& column_is(s.components@[0], "root"@, seq!["question"@, "choices"@])
    &&& text_is(s.components@[1], "question"@, "Which framework would you like to use?"@, Some("body"@))
    &&& choice_is(
        s.components@[2],
        "choices"@,
        seq![("React"@, "react"@), ("Vue"@, "vue"@), ("Svelte"@, "svelte"@), ("Angular"@, "angular"@)],
        1,
    )
    &&& s.data is None
}

/// The sample for an unknown name: a root text saying so.
pub open spec fn unknown_is(s: SampleSurface) -> bool {
    &&& s.components@.len() == 1
    &&& text_is(s.components@[0], "root"@, "Unknown sample type"@, Some("body"@))
    &&& s.data is None
}

/// The sample surface of each kind (see the `*_is` descriptions); each one
/// renders (see `well_formed`).
pub fn sample_surface(kind: SampleKind) -> (r: SampleSurface)
    ensures
        match kind {
            SampleKind::SimpleText => simple_text_is(r),
            SampleKind::ButtonGroup => button_group_is(r),
            SampleKind::Form => form_is(r),
            SampleKind::Card => card_sample_is(r),
            SampleKind::Question => question_is(r),
            SampleKind::Unknown => unknown_is(r),
        },
        well_formed(r),
{
    match kind {
        SampleKind::SimpleText => simple_text_sample(),
        SampleKind::ButtonGroup => button_group_sample(),
        SampleKind::Form => form_sample(),
        SampleKind::Card => card_sample(),
        SampleKind::Question => question_sample(),
        SampleKind::Unknown => unknown_sample(),
    }
}

fn simple_text_sample() -> (r: SampleSurface)
    ensures
        simple_text_is(r),
        well_formed(r),
{
    let components = vec![
        col("root", strings2("title", "content")),
        text("title", "Hello from A2UI!", Some("h2")),
        text("content", "This is a test A2UI surface rendered in Octo.", Some("body")),
    ];
    let r = SampleSurface { components, data: None };
    proof {
        let c = r.components@;
        assert(c[1].id@ == "title"@);
        assert(c[2].id@ == "content"@);
        assert(has_component(r, "root"@)) by {
            assert(c[0].id@ == "root"@);
        }
        assert forall|i: int, j: int|
            0 <= i < c.len() && 0 <= j < widget_refs(c[i].widget).len() implies has_component(
            r,
            #[trigger] widget_refs(c[i].widget)[j],
        ) by {
            if i == 0 {
                if j == 0 {
                    assert(c[1].id@ == widget_refs(c[i].widget)[j]);
                } else {
                    assert(c[2].id@ == widget_refs(c[i].widget)[j]);
                }
            }
        }
    }
    r
}

fn button_group_sample() -> (r: SampleSurface)
    ensures
        button_group_is(r),
        well_formed(r),
{
    let components = vec![
        col("root", strings2("question", "buttons")),
        text("question", "Which option do you prefer?", Some("body")),
        SampleComponent {
            id: lit("buttons"),
            widget: SampleWidget::Row {
                children: strings3("btn1", "btn2", "btn3"),
                distribution: lit("spaceEvenly"),
            },
        },
        button("btn1", "btn1_text", false, "select", choice_context("option1")),
        text("btn1_text", "Option 1", None),
        button("btn2", "btn2_text", true, "select", choice_context("option2")),
        text("btn2_text", "Option 2", None),
        button("btn3", "btn3_text", false, "select", choice_context("option3")),
        text("btn3_text", "Option 3", None),
    ];
    let r = SampleSurface { components, data: None };
    proof {
        let c = r.components@;
        assert(has_component(r, "root"@)) by {
            assert(c[0].id@ == "root"@);
        }
        assert forall|i: int, j: int|
            0 <= i < c.len() && 0 <= j < widget_refs(c[i].widget).len() implies has_component(
            r,
            #[trigger] widget_refs(c[i].widget)[j],
        ) by {
            let x = widget_refs(c[i].widget)[j];
            if i == 0 {
                if j == 0 {
                    assert(c[1].id@ == x);
                } else {
                    assert(c[2].id@ == x);
                }
            } else if i == 2 {
                if j == 0 {
                    assert(c[3].id@ == x);
                } else if j == 1 {
                    assert(c[5].id@ == x);
                } else {
                    assert(c[7].id@ == x);
                }
            } else if i == 3 {
                assert(c[4].id@ == x);
            } else if i == 5 {
                assert(c[6].id@ == x);
            } else if i == 7 {
                assert(c[8].id@ == x);
            }
        }
    }
    r
}

fn field(id: &str, label: &str, path: &str) -> (r: SampleComponent)
    ensures
        field_is(r, id@, label@, path@),
{
    SampleComponent {
        id: lit(id),
        widget: SampleWidget::TextField { label: lit(label), path: lit(path), field_type: lit("shortText") },
    }
}

fn form_sample() -> (r: SampleSurface)
    ensures
        form_is(r),
        well_formed(r),
{
    let context = vec![
        (lit("name"), SampleValue::Path(lit("/form/name"))),
        (lit("email"), SampleValue::Path(lit("/form/email"))),
    ];
    assert(context_view(context@) =~= seq![("name"@, (true, "/form/name"@)), ("email"@, (true, "/form/email"@))]);
    let entries = vec![(lit("name"), String::new()), (lit("email"), String::new())];
    assert(crate::container::pairs_view(entries@) =~= seq![
        ("name"@, Seq::<char>::empty()),
        ("email"@, Seq::<char>::empty()),
    ]);
    let components = vec![
        SampleComponent { id: lit("root"), widget: SampleWidget::Card { child: lit("form_content") } },
        col("form_content", strings4("title", "name_field", "email_field", "submit_btn")),
        text("title", "Contact Form", Some("h3")),
        field("name_field", "Name", "/form/name"),
        field("email_field", "Email", "/form/email"),
        button("submit_btn", "submit_text", true, "submit_form", context),
        text("submit_text", "Submit", None),
    ];
    let r = SampleSurface { components, data: Some((lit("/form"), entries)) };
    proof {
        let c = r.components@;
        assert(has_component(r, "root"@)) by {
            assert(c[0].id@ == "root"@);
        }
        assert forall|i: int, j: int|
            0 <= i < c.len() && 0 <= j < widget_refs(c[i].widget).len() implies has_component(
            r,
            #[trigger] widget_refs(c[i].widget)[j],
        ) by {
            let x = widget_refs(c[i].widget)[j];
            if i == 0 {
                assert(c[1].id@ == x);
            } else if i == 1 {
                if j == 0 {
                    assert(c[2].id@ == x);
                } else if j == 1 {
                    assert(c[3].id@ == x);
                } else if j == 2 {
                    assert(c[4].id@ == x);
                } else {
                    assert(c[5].id@ == x);
                }
            } else if i == 5 {
                assert(c[6].id@ == x);
            }
        }
    }
    r
}

fn card_sample() -> (r: SampleSurface)
    ensures
        card_sample_is(r),
        well_formed(r),
{
    let no_context: Vec<(String, SampleValue)> = Vec::new();
    assert(context_view(no_context@) =~= Seq::empty());
    let components = vec![
        SampleComponent { id: lit("root"), widget: SampleWidget::Card { child: lit("card_content") } },
        col("card_content", strings3("card_title", "card_body", "card_btn")),
        text("card_title", "Sample Card", Some("h3")),
        text("card_body", "Cards group related content and actions.", Some("body")),
        button("card_btn", "card_btn_text", true, "card_action", no_context),
        text("card_btn_text", "Open", None),
    ];
    let r = SampleSurface { components, data: None };
    proof {
        let c = r.components@;
        assert(has_component(r, "root"@)) by {
            assert(c[0].id@ == "root"@);
        }
        assert forall|i: int, j: int|
            0 <= i < c.len() && 0 <= j < widget_refs(c[i].widget).len() implies has_component(
            r,
            #[trigger] widget_refs(c[i].widget)[j],
        ) by {
            let x = widget_refs(c[i].widget)[j];
            if i == 0 {
                assert(c[1].id@ == x);
            } else if i == 1 {
                if j == 0 {
                    assert(c[2].id@ == x);
                } else if j == 1 {
                    assert(c[3].id@ == x);
                } else {
                    assert(c[4].id@ == x);
                }
            } else if i == 4 {
                assert(c[5].id@ == x);
            }
        }
    }
    r
}

fn question_sample() -> (r: SampleSurface)
    ensures
        question_is(r),
        well_formed(r),
{
    let options = vec![
        (lit("React"), lit("react")),
        (lit("Vue"), lit("vue")),
        (lit("Svelte"), lit("svelte")),
        (lit("Angular"), lit("angular")),
    ];
    assert(options_view(options@) =~= seq![
        ("React"@, "react"@),
        ("Vue"@, "vue"@),
        ("Svelte"@, "svelte"@),
        ("Angular"@, "angular"@),
    ]);
    let components = vec![
        col("root", strings2("question", "choices")),
        text("question", "Which framework would you like to use?", Some("body")),
        SampleComponent {
            id: lit("choices"),
            widget: SampleWidget::MultipleChoice { options, max_selections: 1 },
        },
    ];
    let r = SampleSurface { components, data: None };
    proof {
        let c = r.components@;
        assert(has_component(r, "root"@)) by {
            assert(c[0].id@ == "root"@);
        }
        assert forall|i: int, j: int|
            0 <= i < c.len() && 0 <= j < widget_refs(c[i].widget).len() implies has_component(
            r,
            #[trigger] widget_refs(c[i].widget)[j],
        ) by {
            let x = widget_refs(c[i].widget)[j];
            if i == 0 {
                if j == 0 {
                    assert(c[1].id@ == x);
                } else {
                    assert(c[2].id@ == x);
                }
            }
        }
    }
    r
}

fn unknown_sample() -> (r: SampleSurface)
    ensures
        unknown_is(r),
        well_formed(r),
{
    let components = vec![text("root", "Unknown sample type", Some("body"))];
    let r = SampleSurface { components, data: None };
    proof {
        let c = r.components@;
        assert(has_component(r, "root"@)) by {
            assert(c[0].id@ == "root"@);
        }
    }
    r
}

} // verus!
