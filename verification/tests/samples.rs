use oqto::api::SampleKind;
use oqto::samples::{sample_surface, SampleSurface, SampleValue, SampleWidget};

fn ids(s: &SampleSurface) -> Vec<&str> {
    s.components.iter().map(|c| c.id.as_str()).collect()
}

fn refs_resolve(s: &SampleSurface) -> bool {
    let known = ids(s);
    known.contains(&"root")
        && s.components.iter().all(|c| {
            let refs: Vec<&str> = match &c.widget {
                SampleWidget::Column { children } | SampleWidget::Row { children, .. } => {
                    children.iter().map(|x| x.as_str()).collect()
                }
                SampleWidget::Button { child, .. } | SampleWidget::Card { child } => vec![child.as_str()],
                _ => vec![],
            };
            refs.iter().all(|r| known.contains(r))
        })
}

#[test]
fn every_sample_renders() {
    for k in [
        SampleKind::SimpleText,
        SampleKind::ButtonGroup,
        SampleKind::Form,
        SampleKind::Card,
        SampleKind::Question,
        SampleKind::Unknown,
    ] {
        assert!(refs_resolve(&sample_surface(k)), "{:?}", k);
    }
}

#[test]
fn card_sample() {
    let s = sample_surface(SampleKind::Card);
    assert_eq!(ids(&s), vec!["root", "card_content", "card_title", "card_body", "card_btn", "card_btn_text"]);
    assert!(matches!(&s.components[0].widget, SampleWidget::Card { child } if child == "card_content"));
    match &s.components[4].widget {
        SampleWidget::Button { child, primary, action, context } => {
            assert_eq!(child, "card_btn_text");
            assert!(*primary);
            assert_eq!(action, "card_action");
            assert!(context.is_empty());
        }
        other => panic!("unexpected {:?}", other),
    }
    assert!(s.data.is_none());
}

#[test]
fn button_group_sample() {
    let s = sample_surface(SampleKind::ButtonGroup);
    assert_eq!(
        ids(&s),
        vec!["root", "question", "buttons", "btn1", "btn1_text", "btn2", "btn2_text", "btn3", "btn3_text"]
    );
    match &s.components[5].widget {
        SampleWidget::Button { primary, action, context, .. } => {
            assert!(*primary);
            assert_eq!(action, "select");
            assert!(matches!(&context[0], (k, SampleValue::Literal(v)) if k == "value" && v == "option2"));
        }
        other => panic!("unexpected {:?}", other),
    }
    assert!(matches!(&s.components[2].widget, SampleWidget::Row { distribution, .. } if distribution == "spaceEvenly"));
}

#[test]
fn form_sample() {
    let s = sample_surface(SampleKind::Form);
    assert_eq!(ids(&s)[0], "root");
    match &s.components[5].widget {
        SampleWidget::Button { action, context, .. } => {
            assert_eq!(action, "submit_form");
            assert!(matches!(&context[1], (k, SampleValue::Path(p)) if k == "email" && p == "/form/email"));
        }
        other => panic!("unexpected {:?}", other),
    }
    let (path, entries) = s.data.unwrap();
    assert_eq!(path, "/form");
    assert_eq!(entries, vec![("name".to_string(), String::new()), ("email".to_string(), String::new())]);
}

#[test]
fn question_and_unknown_samples() {
    let s = sample_surface(SampleKind::Question);
    match &s.components[2].widget {
        SampleWidget::MultipleChoice { options, max_selections } => {
            assert_eq!(options.len(), 4);
            assert_eq!(options[2], ("Svelte".to_string(), "svelte".to_string()));
            assert_eq!(*max_selections, 1);
        }
        other => panic!("unexpected {:?}", other),
    }
    let u = sample_surface(SampleKind::Unknown);
    assert_eq!(ids(&u), vec!["root"]);
    assert!(matches!(&u.components[0].widget, SampleWidget::Text { text, .. } if text == "Unknown sample type"));
}
