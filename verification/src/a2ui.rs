//! A2UI surfaces the administrator CLI shows in a session: the components
//! each kind of prompt is made of, with their IDs, texts, actions and
//! layout.
//!
//! Sending a surface and waiting for the user's answer is the caller's
//! part, as is writing the components out as JSON.

use vstd::prelude::*;
use crate::auth::unix_time_nanos;
use crate::text::{strings_view, decimal, decimal_string, lit};

verus! {

broadcast use vstd::string::group_string_axioms;

/// The widget a component shows.
#[derive(Debug, Clone)]
pub enum A2uiWidget {
    /// A text, optionally with a style hint ("h1" to "h5", "caption",
    /// "body").
    Text { text: String, usage_hint: Option<String> },
    /// A button showing component `child` that reports `action` with the
    /// values bound to `context_keys`.
    Button { child: String, primary: bool, action: String, context_keys: Vec<String> },
    /// A row of components, start-aligned, centred, 8 apart.
    Row { children: Vec<String> },
    /// A column of components, 12 apart.
    Column { children: Vec<String> },
    /// A text field bound to `data_path`.
    TextField { label: String, data_path: String, field_type: String },
    /// A choice among options (label and value alike), bound to `data_key`.
    MultipleChoice { data_key: String, options: Vec<String>, multi_select: bool },
    /// A checkbox.
    CheckBox { label: String, checked: bool },
    /// A date and/or time input.
    DateTimeInput { value: String, enable_date: bool, enable_time: bool },
    /// An image.
    Image { url: String, fit: String },
    /// A video.
    Video { url: String },
    /// An audio player.
    AudioPlayer { url: String, description: Option<String> },
    /// Tabs: each a title and the component it shows.
    Tabs { items: Vec<(String, String)> },
}

/// A component of a surface.
#[derive(Debug, Clone)]
pub struct A2uiComponent {
    pub id: String,
    pub widget: A2uiWidget,
}

/// A surface to show: its components (the one with ID "root" is rendered)
/// and whether the CLI waits for the user's answer.
#[derive(Debug, Clone)]
pub struct A2uiSurface {
    pub components: Vec<A2uiComponent>,
    pub blocking: bool,
}

// ---------------------------------------------------------------------------
// Components
// ---------------------------------------------------------------------------

/// `c` is the plain text `text` with ID `id`.
pub open spec fn text_is(c: A2uiComponent, id: Seq<char>, text: Seq<char>) -> bool {
    &&& c.id@ == id
    &&& c.widget matches A2uiWidget::Text { text: t, usage_hint: h } && t@ == text && h is None
}

/// `c` is the button `id` showing `child` that reports `action` with the
/// values under `keys`.
pub open spec fn button_is(
    c: A2uiComponent,
    id: Seq<char>,
    child: Seq<char>,
    primary: bool,
    action: Seq<char>,
    keys: Seq<Seq<char>>,
) -> bool {
    &&& c.id@ == id
    &&& c.widget matches A2uiWidget::Button { child: ch, primary: p, action: a, context_keys: ks }
        && ch@ == child && p == primary && a@ == action && strings_view(ks@) == keys
}

/// `c` is the root column holding `children`.
pub open spec fn root_is(c: A2uiComponent, children: Seq<Seq<char>>) -> bool {
    &&& c.id@ == "root"@
    &&& c.widget matches A2uiWidget::Column { children: ch } && strings_view(ch@) == children
}

fn text_component(id: &str, text: &str) -> (r: A2uiComponent)
    ensures
        text_is(r, id@, text@),
{
    A2uiComponent { id: lit(id), widget: A2uiWidget::Text { text: lit(text), usage_hint: None } }
}

fn button_component(id: &str, child: &str, primary: bool, action: &str, keys: Vec<String>) -> (r:
    A2uiComponent)
    ensures
        button_is(r, id@, child@, primary, action@, strings_view(keys@)),
{
    A2uiComponent {
        id: lit(id),
        widget: A2uiWidget::Button {
            child: lit(child),
            primary,
            action: lit(action),
            context_keys: keys,
        },
    }
}

fn root_column(children: Vec<String>) -> (r: A2uiComponent)
    ensures
        root_is(r, strings_view(children@)),
{
    A2uiComponent { id: lit("root"), widget: A2uiWidget::Column { children } }
}

fn no_keys() -> (r: Vec<String>)
    ensures
        strings_view(r@) == Seq::<Seq<char>>::empty(),
{
    let r: Vec<String> = Vec::new();
    assert(strings_view(r@) =~= Seq::<Seq<char>>::empty());
    r
}

fn one_name(a: &str) -> (r: Vec<String>)
    ensures
        strings_view(r@) == seq![a@],
{
    let r = vec![lit(a)];
    assert(strings_view(r@) =~= seq![a@]);
    r
}

fn two_names(a: &str, b: &str) -> (r: Vec<String>)
    ensures
        strings_view(r@) == seq![a@, b@],
{
    let r = vec![lit(a), lit(b)];
    assert(strings_view(r@) =~= seq![a@, b@]);
    r
}

fn three_names(a: &str, b: &str, c: &str) -> (r: Vec<String>)
    ensures
        strings_view(r@) == seq![a@, b@, c@],
{
    let r = vec![lit(a), lit(b), lit(c)];
    assert(strings_view(r@) =~= seq![a@, b@, c@]);
    r
}

/// `name` followed by the decimal digits of `i`.
pub open spec fn numbered(name: Seq<char>, i: nat) -> Seq<char> {
    name + decimal(i)
}

fn numbered_id(name: &str, i: usize) -> (r: String)
    ensures
        r@ == numbered(name@, i as nat),
{
    let mut r = lit(name);
    let d = decimal_string(i as u64);
    r.append(d.as_str());
    r
}

// ---------------------------------------------------------------------------
// Surfaces
// ---------------------------------------------------------------------------

/// The ID of a surface made at a time given in nanoseconds since the Unix
/// epoch: `prefix`, a hyphen and that time in whole milliseconds.
pub open spec fn surface_id_of(prefix: Seq<char>, nanos: u128) -> Seq<char> {
    prefix + "-"@ + decimal((nanos / 1_000_000) as nat)
}

/// The ID of a surface made at the given time (see `surface_id_of`).
pub fn surface_id_at(prefix: &str, nanos: u128) -> (r: String)
    ensures
        r@ == surface_id_of(prefix@, nanos),
{
    let mut r = lit(prefix);
    r.append("-");
    let d = crate::text::decimal_string_u128(nanos / 1_000_000);
    r.append(d.as_str());
    r
}

/// The ID of a new surface: `prefix`, a hyphen and the current time in
/// milliseconds since the Unix epoch (see `surface_id_at`); `None` when the
/// clock reads before 1970.
pub fn surface_id(prefix: &str) -> (r: Option<String>)
    ensures
        r matches Some(id) ==> exists|nanos: u128| id@ == #[trigger] surface_id_of(prefix@, nanos),
{
    match unix_time_nanos() {
        Some(nanos) => Some(surface_id_at(prefix, nanos)),
        None => None,
    }
}

/// The number of components before the main ones: 1 when a prompt text
/// leads, else 0.
pub open spec fn lead(prompt: Option<String>) -> int {
    if prompt is Some {
        1
    } else {
        0
    }
}

/// `c` starts with the prompt text when there is a prompt.
pub open spec fn prompt_leads(c: Seq<A2uiComponent>, prompt: Option<String>) -> bool {
    prompt matches Some(p) ==> c.len() > 0 && text_is(c[0], "prompt"@, p@)
}

fn push_prompt(c: &mut Vec<A2uiComponent>, prompt: &Option<String>)
    requires
        old(c)@.len() == 0,
    ensures
        final(c)@.len() == lead(*prompt),
        prompt_leads(final(c)@, *prompt),
{
    match prompt {
        Some(p) => c.push(text_component("prompt", p.as_str())),
        None => {},
    }
}

/// A button prompt: the optional prompt text, then for each label `i` a
/// text `txt_i` and a button `btn_i` (the first one primary) reporting the
/// label, all buttons in a row, and a root column of the prompt and the
/// row. Refused without buttons.
pub fn button_surface(prompt: Option<String>, buttons: &Vec<String>) -> (r: Result<A2uiSurface, String>)
    ensures
        buttons@.len() == 0 ==> (r matches Err(m) && m@ == "At least one button is required"@),
        buttons@.len() > 0 ==> (r matches Ok(s) && ({
            let c = s.components@;
            let o = lead(prompt);
            let n = buttons@.len() as int;
            &&& s.blocking
            &&& c.len() == o + 2 * n + 2
            &&& prompt_leads(c, prompt)
            &&& forall|i: int|
                0 <= i < n ==> text_is(#[trigger] c[o + 2 * i], numbered("txt_"@, i as nat), buttons@[i]@)
                    && button_is(
                    c[o + 2 * i + 1],
                    numbered("btn_"@, i as nat),
                    numbered("txt_"@, i as nat),
                    i == 0,
                    buttons@[i]@,
                    Seq::empty(),
                )
            &&& c[o + 2 * n].id@ == "row"@
            &&& c[o + 2 * n].widget matches A2uiWidget::Row { children: ch } && strings_view(ch@)
                == Seq::new(n as nat, |i: int| numbered("btn_"@, i as nat))
            &&& root_is(
                c[o + 2 * n + 1],
                if prompt is Some {
                    seq!["prompt"@, "row"@]
                } else {
                    seq!["row"@]
                },
            )
        })),
{
    if buttons.len() == 0 {
        return Err(lit("At least one button is required"));
    }
    let mut c: Vec<A2uiComponent> = Vec::new();
    push_prompt(&mut c, &prompt);
    let ghost o = lead(prompt);
    let mut ids: Vec<String> = Vec::new();
    let mut i: usize = 0;
    while i < buttons.len()
        invariant
            i <= buttons@.len(),
            o == lead(prompt),
            c@.len() == o + 2 * i,
            prompt_leads(c@, prompt),
            ids@.len() == i,
            strings_view(ids@) == Seq::new(i as nat, |k: int| numbered("btn_"@, k as nat)),
            forall|k: int|
                0 <= k < i ==> text_is(#[trigger] c@[o + 2 * k], numbered("txt_"@, k as nat), buttons@[k]@)
                    && button_is(
                    c@[o + 2 * k + 1],
                    numbered("btn_"@, k as nat),
                    numbered("txt_"@, k as nat),
                    k == 0,
                    buttons@[k]@,
                    Seq::empty(),
                ),
        decreases buttons.len() - i,
    {
        let txt = numbered_id("txt_", i);
        let btn = numbered_id("btn_", i);
        let label = buttons[i].as_str();
        let ghost before = c@;
        c.push(text_component(txt.as_str(), label));
        c.push(button_component(btn.as_str(), txt.as_str(), i == 0, label, no_keys()));
        proof {
            assert forall|k: int| 0 <= k < i + 1 implies text_is(
                #[trigger] c@[o + 2 * k],
                numbered("txt_"@, k as nat),
                buttons@[k]@,
            ) && button_is(
                c@[o + 2 * k + 1],
                numbered("btn_"@, k as nat),
                numbered("txt_"@, k as nat),
                k == 0,
                buttons@[k]@,
                Seq::empty(),
            ) by {
                if k < i {
                    assert(c@[o + 2 * k] == before[o + 2 * k]);
                    assert(c@[o + 2 * k + 1] == before[o + 2 * k + 1]);
                }
            }
            if prompt is Some {
                assert(c@[0] == before[0]);
            }
        }
        let ghost old_ids = ids@;
        let ghost b = btn@;
        assert(b == numbered("btn_"@, i as nat));
        ids.push(btn);
        proof {
            assert forall|k: int| 0 <= k < i + 1 implies #[trigger] strings_view(ids@)[k] == numbered("btn_"@, k as nat) by {
                if k < i {
                    assert(ids@[k] == old_ids[k]);
                    assert(strings_view(old_ids)[k] == numbered("btn_"@, k as nat));
                } else {
                    assert(ids@[k]@ == b);
                }
            }
        }
        assert(strings_view(ids@) =~= Seq::new((i + 1) as nat, |k: int| numbered("btn_"@, k as nat)));
        i = i + 1;
    }
    let ghost before_row = c@;
    c.push(A2uiComponent { id: lit("row"), widget: A2uiWidget::Row { children: ids } });
    let root = if prompt.is_some() {
        two_names("prompt", "row")
    } else {
        one_name("row")
    };
    c.push(root_column(root));
    proof {
        let n = buttons@.len() as int;
        assert forall|k: int| 0 <= k < n implies text_is(
            #[trigger] c@[o + 2 * k],
            numbered("txt_"@, k as nat),
            buttons@[k]@,
        ) && button_is(
            c@[o + 2 * k + 1],
            numbered("btn_"@, k as nat),
            numbered("txt_"@, k as nat),
            k == 0,
            buttons@[k]@,
            Seq::empty(),
        ) by {
            assert(c@[o + 2 * k] == before_row[o + 2 * k]);
            assert(c@[o + 2 * k + 1] == before_row[o + 2 * k + 1]);
        }
        if prompt is Some {
            assert(c@[0] == before_row[0]);
        }
    }
    Ok(A2uiSurface { components: c, blocking: true })
}

/// The text field kind an input type asks for: "number" for numbers,
/// "obscured" for passwords, "longText" for long text, otherwise
/// "shortText".
pub open spec fn text_field_type(input_type: Seq<char>) -> Seq<char> {
    if input_type == "number"@ {
        "number"@
    } else if input_type == "password"@ {
        "obscured"@
    } else if input_type == "long"@ {
        "longText"@
    } else {
        "shortText"@
    }
}

fn field_type_of(input_type: &str) -> (r: String)
    ensures
        r@ == text_field_type(input_type@),
{
    let t = lit(input_type);
    if t == lit("number") {
        lit("number")
    } else if t == lit("password") {
        lit("obscured")
    } else if t == lit("long") {
        lit("longText")
    } else {
        lit("shortText")
    }
}

/// The submit button every form-like prompt ends with: a text `label`
/// shown by button `submit_btn`, which reports `action` with the value
/// under `key`.
pub open spec fn submit_is(
    t: A2uiComponent,
    b: A2uiComponent,
    label: Seq<char>,
    action: Seq<char>,
    key: Seq<char>,
) -> bool {
    &&& text_is(t, "submit_text"@, label)
    &&& button_is(b, "submit_btn"@, "submit_text"@, true, action, seq![key])
}

fn push_submit(c: &mut Vec<A2uiComponent>, label: &str, action: &str, key: &str)
    ensures
        final(c)@.len() == old(c)@.len() + 2,
        final(c)@.subrange(0, old(c)@.len() as int) == old(c)@,
        submit_is(final(c)@[old(c)@.len() as int], final(c)@[old(c)@.len() as int + 1], label@, action@, key@),
{
    c.push(text_component("submit_text", label));
    c.push(button_component("submit_btn", "submit_text", true, action, one_name(key)));
    assert(c@.subrange(0, old(c)@.len() as int) =~= old(c)@);
}

/// A text input: the prompt, a text field labelled with the placeholder
/// ("Enter text..." when none) bound to `/user_input`, a "Submit" button
/// reporting `submit` with the input, and the root column of the three.
pub fn input_surface(prompt: &str, placeholder: &Option<String>, input_type: &str) -> (r: A2uiSurface)
    ensures
        r.blocking,
        r.components@.len() == 5,
        text_is(r.components@[0], "prompt_text"@, prompt@),
        r.components@[1].id@ == "input_field"@,
        r.components@[1].widget matches A2uiWidget::TextField { label: l, data_path: d, field_type: f }
            && l@ == (match placeholder {
            Some(p) => p@,
            None => "Enter text..."@,
        }) && d@ == "/user_input"@ && f@ == text_field_type(input_type@),
        submit_is(r.components@[2], r.components@[3], "Submit"@, "submit"@, "user_input"@),
        root_is(r.components@[4], seq!["prompt_text"@, "input_field"@, "submit_btn"@]),
{
    let label = match placeholder {
        Some(p) => p.clone(),
        None => lit("Enter text..."),
    };
    let mut c: Vec<A2uiComponent> = Vec::new();
    c.push(text_component("prompt_text", prompt));
    c.push(
        A2uiComponent {
            id: lit("input_field"),
            widget: A2uiWidget::TextField {
                label,
                data_path: lit("/user_input"),
                field_type: field_type_of(input_type),
            },
        },
    );
    let ghost before = c@;
    push_submit(&mut c, "Submit", "submit", "user_input");
    assert(c@[0] == before[0] && c@[1] == before[1]);
    let ghost before_root = c@;
    c.push(root_column(three_names("prompt_text", "input_field", "submit_btn")));
    assert(c@[0] == before_root[0] && c@[1] == before_root[1] && c@[2] == before_root[2] && c@[3]
        == before_root[3]);
    A2uiSurface { components: c, blocking: true }
}

/// A choice prompt: the optional prompt, a choice among the options bound
/// to `selection` (several allowed with `multi`), a "Confirm" button
/// reporting `selected` with the selection, and the root column. Refused
/// without options.
pub fn choice_surface(prompt: Option<String>, choices: &Vec<String>, multi: bool) -> (r: Result<
    A2uiSurface,
    String,
>)
    ensures
        choices@.len() == 0 ==> (r matches Err(m) && m@ == "At least one choice is required"@),
        choices@.len() > 0 ==> (r matches Ok(s) && ({
            let c = s.components@;
            let o = lead(prompt);
            &&& s.blocking
            &&& c.len() == o + 4
            &&& prompt_leads(c, prompt)
            &&& c[o].id@ == "choices"@
            &&& c[o].widget matches A2uiWidget::MultipleChoice { data_key: k, options: opts, multi_select: m }
                && k@ == "selection"@ && opts@ == choices@ && m == multi
            &&& submit_is(c[o + 1], c[o + 2], "Confirm"@, "selected"@, "selection"@)
            &&& root_is(
                c[o + 3],
                if prompt is Some {
                    seq!["prompt"@, "choices"@, "submit_btn"@]
                } else {
                    seq!["choices"@, "submit_btn"@]
                },
            )
        })),
{
    if choices.len() == 0 {
        return Err(lit("At least one choice is required"));
    }
    let mut c: Vec<A2uiComponent> = Vec::new();
    push_prompt(&mut c, &prompt);
    let mut opts: Vec<String> = Vec::new();
    let mut i: usize = 0;
    while i < choices.len()
        invariant
            i <= choices@.len(),
            opts@ == choices@.subrange(0, i as int),
        decreases choices.len() - i,
    {
        opts.push(choices[i].clone());
        i = i + 1;
        assert(opts@ =~= choices@.subrange(0, i as int));
    }
    assert(opts@ =~= choices@);
    let ghost b0 = c@;
    c.push(
        A2uiComponent {
            id: lit("choices"),
            widget: A2uiWidget::MultipleChoice {
                data_key: lit("selection"),
                options: opts,
                multi_select: multi,
            },
        },
    );
    let ghost b1 = c@;
    push_submit(&mut c, "Confirm", "selected", "selection");
    let root = if prompt.is_some() {
        three_names("prompt", "choices", "submit_btn")
    } else {
        two_names("choices", "submit_btn")
    };
    let ghost b2 = c@;
    c.push(root_column(root));
    proof {
        let o = lead(prompt);
        assert(c@[o] == b2[o] && b2[o] == b1[o]);
        assert(c@[o + 1] == b2[o + 1] && c@[o + 2] == b2[o + 2]);
        if prompt is Some {
            assert(c@[0] == b2[0] && b2[0] == b1[0] && b1[0] == b0[0]);
        }
    }
    Ok(A2uiSurface { components: c, blocking: true })
}

/// A checkbox prompt: the checkbox, a "Confirm" button reporting
/// `confirmed` with `checked`, and the root column.
pub fn checkbox_surface(label: &str, checked: bool) -> (r: A2uiSurface)
    ensures
        r.blocking,
        r.components@.len() == 4,
        r.components@[0].id@ == "checkbox"@,
        r.components@[0].widget matches A2uiWidget::CheckBox { label: l, checked: k } && l@ == label@
            && k == checked,
        submit_is(r.components@[1], r.components@[2], "Confirm"@, "confirmed"@, "checked"@),
        root_is(r.components@[3], seq!["checkbox"@, "submit_btn"@]),
{
    let mut c: Vec<A2uiComponent> = Vec::new();
    c.push(A2uiComponent { id: lit("checkbox"), widget: A2uiWidget::CheckBox { label: lit(label), checked } });
    let ghost b0 = c@;
    push_submit(&mut c, "Confirm", "confirmed", "checked");
    assert(c@[0] == b0[0]);
    let ghost b1 = c@;
    c.push(root_column(two_names("checkbox", "submit_btn")));
    assert(c@[0] == b1[0] && c@[1] == b1[1] && c@[2] == b1[2]);
    A2uiSurface { components: c, blocking: true }
}

/// A date/time prompt: the optional prompt, the input (initially `value`,
/// empty when none), a "Confirm" button reporting `confirmed` with the
/// value, and the root column.
pub fn datetime_surface(prompt: Option<String>, date: bool, time: bool, value: &Option<String>) -> (r:
    A2uiSurface)
    ensures
        ({
            let c = r.components@;
            let o = lead(prompt);
            &&& r.blocking
            &&& c.len() == o + 4
            &&& prompt_leads(c, prompt)
            &&& c[o].id@ == "datetime"@
            &&& c[o].widget matches A2uiWidget::DateTimeInput { value: v, enable_date: d, enable_time: t }
                && v@ == (match value {
                Some(x) => x@,
                None => Seq::<char>::empty(),
            }) && d == date && t == time
            &&& submit_is(c[o + 1], c[o + 2], "Confirm"@, "confirmed"@, "datetime_value"@)
            &&& root_is(
                c[o + 3],
                if prompt is Some {
                    seq!["prompt"@, "datetime"@, "submit_btn"@]
                } else {
                    seq!["datetime"@, "submit_btn"@]
                },
            )
        }),
{
    let mut c: Vec<A2uiComponent> = Vec::new();
    push_prompt(&mut c, &prompt);
    let v = match value {
        Some(x) => x.clone(),
        None => String::new(),
    };
    let ghost b0 = c@;
    c.push(
        A2uiComponent {
            id: lit("datetime"),
            widget: A2uiWidget::DateTimeInput { value: v, enable_date: date, enable_time: time },
        },
    );
    let ghost b1 = c@;
    push_submit(&mut c, "Confirm", "confirmed", "datetime_value");
    let root = if prompt.is_some() {
        three_names("prompt", "datetime", "submit_btn")
    } else {
        two_names("datetime", "submit_btn")
    };
    let ghost b2 = c@;
    c.push(root_column(root));
    proof {
        let o = lead(prompt);
        assert(c@[o] == b2[o] && b2[o] == b1[o]);
        assert(c@[o + 1] == b2[o + 1] && c@[o + 2] == b2[o + 2]);
        if prompt is Some {
            assert(c@[0] == b2[0] && b2[0] == b1[0] && b1[0] == b0[0]);
        }
    }
    A2uiSurface { components: c, blocking: true }
}

/// The styles a text may carry as a hint.
pub open spec fn is_text_style(s: Seq<char>) -> bool {
    s == "h1"@ || s == "h2"@ || s == "h3"@ || s == "h4"@ || s == "h5"@ || s == "caption"@ || s
        == "body"@
}

/// A text shown without waiting: a single root text, with the style as its
/// hint when it is a known one.
pub fn text_surface(text: &str, style: &str) -> (r: A2uiSurface)
    ensures
        !r.blocking,
        r.components@.len() == 1,
        r.components@[0].id@ == "root"@,
        r.components@[0].widget matches A2uiWidget::Text { text: t, usage_hint: h } && t@ == text@
            && (if is_text_style(style@) {
            h matches Some(x) && x@ == style@
        } else {
            h is None
        }),
{
    let s = lit(style);
    let known = s == lit("h1") || s == lit("h2") || s == lit("h3") || s == lit("h4") || s == lit("h5")
        || s == lit("caption") || s == lit("body");
    let hint = if known {
        Some(s)
    } else {
        None
    };
    let c = vec![A2uiComponent { id: lit("root"), widget: A2uiWidget::Text { text: lit(text), usage_hint: hint } }];
    A2uiSurface { components: c, blocking: false }
}

/// `c` ends a media surface: with confirmation an "OK" text and a button
/// reporting `confirmed`, then the root column of the media and the
/// button; without, just the root column of the media.
pub open spec fn media_tail(c: Seq<A2uiComponent>, media_id: Seq<char>, confirm: bool) -> bool {
    if confirm {
        &&& c.len() == 4
        &&& text_is(c[1], "confirm_text"@, "OK"@)
        &&& button_is(c[2], "confirm_btn"@, "confirm_text"@, true, "confirmed"@, Seq::empty())
        &&& root_is(c[3], seq![media_id, "confirm_btn"@])
    } else {
        &&& c.len() == 2
        &&& root_is(c[1], seq![media_id])
    }
}

fn media_surface(media: A2uiComponent, media_id: &str, confirm: bool) -> (r: A2uiSurface)
    requires
        media.id@ == media_id@,
    ensures
        r.blocking == confirm,
        r.components@.len() > 0,
        r.components@[0] == media,
        media_tail(r.components@, media_id@, confirm),
{
    let mut c: Vec<A2uiComponent> = Vec::new();
    c.push(media);
    if confirm {
        c.push(text_component("confirm_text", "OK"));
        c.push(button_component("confirm_btn", "confirm_text", true, "confirmed", no_keys()));
        let ghost b = c@;
        let names = two_names(media_id, "confirm_btn");
        c.push(root_column(names));
        assert(c@[0] == b[0] && c@[1] == b[1] && c@[2] == b[2]);
    } else {
        let ghost b = c@;
        c.push(root_column(one_name(media_id)));
        assert(c@[0] == b[0]);
    }
    A2uiSurface { components: c, blocking: confirm }
}

/// An image (`fit` as given), waiting for an "OK" when `confirm`.
pub fn image_surface(url: &str, fit: &str, confirm: bool) -> (r: A2uiSurface)
    ensures
        r.blocking == confirm,
        r.components@.len() > 0,
        r.components@[0].id@ == "image"@,
        r.components@[0].widget matches A2uiWidget::Image { url: u, fit: f } && u@ == url@ && f@
            == fit@,
        media_tail(r.components@, "image"@, confirm),
{
    let m = A2uiComponent { id: lit("image"), widget: A2uiWidget::Image { url: lit(url), fit: lit(fit) } };
    media_surface(m, "image", confirm)
}

/// A video, waiting for an "OK" when `confirm`.
pub fn video_surface(url: &str, confirm: bool) -> (r: A2uiSurface)
    ensures
        r.blocking == confirm,
        r.components@.len() > 0,
        r.components@[0].id@ == "video"@,
        r.components@[0].widget matches A2uiWidget::Video { url: u } && u@ == url@,
        media_tail(r.components@, "video"@, confirm),
{
    let m = A2uiComponent { id: lit("video"), widget: A2uiWidget::Video { url: lit(url) } };
    media_surface(m, "video", confirm)
}

/// An audio player (with its description, if any), waiting for an "OK"
/// when `confirm`.
pub fn audio_surface(url: &str, description: Option<String>, confirm: bool) -> (r: A2uiSurface)
    ensures
        r.blocking == confirm,
        r.components@.len() > 0,
        r.components@[0].id@ == "audio"@,
        r.components@[0].widget matches A2uiWidget::AudioPlayer { url: u, description: d } && u@
            == url@ && d == description,
        media_tail(r.components@, "audio"@, confirm),
{
    let m = A2uiComponent {
        id: lit("audio"),
        widget: A2uiWidget::AudioPlayer { url: lit(url), description },
    };
    media_surface(m, "audio", confirm)
}

/// Tabs built from (title, content) definitions: a text `tab_content_i`
/// per tab (content empty when absent), the tabs component titling each
/// ("Tab" when absent), and the confirmation tail as for media.
pub fn tabs_surface(tabs: &Vec<(Option<String>, Option<String>)>, confirm: bool) -> (r: A2uiSurface)
    ensures
        ({
            let c = r.components@;
            let n = tabs@.len() as int;
            &&& r.blocking == confirm
            &&& c.len() > n
            &&& forall|i: int|
                0 <= i < n ==> text_is(
                    #[trigger] c[i],
                    numbered("tab_content_"@, i as nat),
                    match tabs@[i].1 {
                        Some(x) => x@,
                        None => Seq::<char>::empty(),
                    },
                )
            &&& c[n].id@ == "tabs"@
            &&& c[n].widget matches A2uiWidget::Tabs { items } && items@.len() == n && (forall|i: int|
                0 <= i < n ==> (#[trigger] items@[i]).0@ == (match tabs@[i].0 {
                    Some(x) => x@,
                    None => "Tab"@,
                }) && items@[i].1@ == numbered("tab_content_"@, i as nat))
            &&& media_tail(c.subrange(n, c.len() as int), "tabs"@, confirm)
        }),
{
    let mut c: Vec<A2uiComponent> = Vec::new();
    let mut items: Vec<(String, String)> = Vec::new();
    let mut i: usize = 0;
    while i < tabs.len()
        invariant
            i <= tabs@.len(),
            c@.len() == i,
            items@.len() == i,
            forall|k: int|
                0 <= k < i ==> text_is(
                    #[trigger] c@[k],
                    numbered("tab_content_"@, k as nat),
                    match tabs@[k].1 {
                        Some(x) => x@,
                        None => Seq::<char>::empty(),
                    },
                ),
            forall|k: int|
                0 <= k < i ==> (#[trigger] items@[k]).0@ == (match tabs@[k].0 {
                    Some(x) => x@,
                    None => "Tab"@,
                }) && items@[k].1@ == numbered("tab_content_"@, k as nat),
        decreases tabs.len() - i,
    {
        let title = match &tabs[i].0 {
            Some(t) => t.clone(),
            None => lit("Tab"),
        };
        let content = match &tabs[i].1 {
            Some(t) => t.clone(),
            None => String::new(),
        };
        let id = numbered_id("tab_content_", i);
        c.push(text_component(id.as_str(), content.as_str()));
        items.push((title, id));
        i = i + 1;
    }
    let tabs_component = A2uiComponent { id: lit("tabs"), widget: A2uiWidget::Tabs { items } };
    let mut tail = media_surface(tabs_component, "tabs", confirm);
    let ghost head = c@;
    let ghost t = tail.components@;
    c.append(&mut tail.components);
    assert(c@.subrange(0, head.len() as int) =~= head);
    assert(c@.subrange(head.len() as int, c@.len() as int) =~= t);
    proof {
        let n = tabs@.len() as int;
        assert forall|k: int| 0 <= k < n implies text_is(
            #[trigger] c@[k],
            numbered("tab_content_"@, k as nat),
            match tabs@[k].1 {
                Some(x) => x@,
                None => Seq::<char>::empty(),
            },
        ) by {
            assert(c@[k] == c@.subrange(0, n)[k]);
        }
        assert(c@[n] == c@.subrange(n, c@.len() as int)[0]);
    }
    A2uiSurface { components: c, blocking: confirm }
}

} // verus!
