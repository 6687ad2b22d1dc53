use oqto::a2ui::{
    audio_surface, button_surface, checkbox_surface, choice_surface, datetime_surface,
    image_surface, input_surface, surface_id, tabs_surface, text_surface, video_surface,
    A2uiComponent, A2uiWidget,
};

fn ids(c: &[A2uiComponent]) -> Vec<&str> {
    c.iter().map(|x| x.id.as_str()).collect()
}

fn root_children(c: &[A2uiComponent]) -> Vec<String> {
    match &c.last().unwrap().widget {
        A2uiWidget::Column { children } => children.clone(),
        _ => panic!("root is a column"),
    }
}

#[test]
fn button_prompt_layout() {
    let s = button_surface(Some("Pick".to_string()), &vec!["Yes".to_string(), "No".to_string()]).unwrap();
    assert!(s.blocking);
    assert_eq!(ids(&s.components), vec!["prompt", "txt_0", "btn_0", "txt_1", "btn_1", "row", "root"]);
    match &s.components[2].widget {
        A2uiWidget::Button { child, primary, action, context_keys } => {
            assert_eq!((child.as_str(), *primary, action.as_str()), ("txt_0", true, "Yes"));
            assert!(context_keys.is_empty());
        }
        _ => panic!("button"),
    }
    match &s.components[4].widget {
        A2uiWidget::Button { primary, .. } => assert!(!primary),
        _ => panic!("button"),
    }
    match &s.components[5].widget {
        A2uiWidget::Row { children } => assert_eq!(children, &vec!["btn_0".to_string(), "btn_1".to_string()]),
        _ => panic!("row"),
    }
    assert_eq!(root_children(&s.components), vec!["prompt", "row"]);
    assert_eq!(button_surface(None, &vec![]).unwrap_err(), "At least one button is required");
    let s = button_surface(None, &vec!["Only".to_string()]).unwrap();
    assert_eq!(ids(&s.components), vec!["txt_0", "btn_0", "row", "root"]);
}

#[test]
fn input_and_choice_prompts() {
    let s = input_surface("Name?", &None, "password");
    assert_eq!(ids(&s.components), vec!["prompt_text", "input_field", "submit_text", "submit_btn", "root"]);
    match &s.components[1].widget {
        A2uiWidget::TextField { label, data_path, field_type } => {
            assert_eq!((label.as_str(), data_path.as_str(), field_type.as_str()), ("Enter text...", "/user_input", "obscured"));
        }
        _ => panic!("text field"),
    }
    let s = input_surface("N", &Some("type".to_string()), "weird");
    match &s.components[1].widget {
        A2uiWidget::TextField { label, field_type, .. } => assert_eq!((label.as_str(), field_type.as_str()), ("type", "shortText")),
        _ => panic!("text field"),
    }
    let s = choice_surface(None, &vec!["a".to_string(), "b".to_string()], true).unwrap();
    assert_eq!(ids(&s.components), vec!["choices", "submit_text", "submit_btn", "root"]);
    assert_eq!(root_children(&s.components), vec!["choices", "submit_btn"]);
    assert_eq!(choice_surface(None, &vec![], false).unwrap_err(), "At least one choice is required");
}

#[test]
fn other_prompts() {
    let s = checkbox_surface("Agree", true);
    assert_eq!(ids(&s.components), vec!["checkbox", "submit_text", "submit_btn", "root"]);
    let s = datetime_surface(Some("When".to_string()), true, false, &None);
    assert_eq!(root_children(&s.components), vec!["prompt", "datetime", "submit_btn"]);
    let t = text_surface("Hi", "h2");
    assert!(!t.blocking);
    match &t.components[0].widget {
        A2uiWidget::Text { usage_hint, .. } => assert_eq!(usage_hint.as_deref(), Some("h2")),
        _ => panic!("text"),
    }
    match &text_surface("Hi", "huge").components[0].widget {
        A2uiWidget::Text { usage_hint, .. } => assert!(usage_hint.is_none()),
        _ => panic!("text"),
    }
    let i = image_surface("http://x/a.png", "cover", true);
    assert!(i.blocking);
    assert_eq!(ids(&i.components), vec!["image", "confirm_text", "confirm_btn", "root"]);
    let v = video_surface("http://x/v.mp4", false);
    assert_eq!(ids(&v.components), vec!["video", "root"]);
    let a = audio_surface("http://x/a.mp3", Some("song".to_string()), false);
    assert_eq!(root_children(&a.components), vec!["audio"]);
    let tabs = tabs_surface(&vec![(Some("One".to_string()), Some("first".to_string())), (None, None)], false);
    assert_eq!(ids(&tabs.components), vec!["tab_content_0", "tab_content_1", "tabs", "root"]);
    match &tabs.components[2].widget {
        A2uiWidget::Tabs { items } => {
            assert_eq!(items[1], ("Tab".to_string(), "tab_content_1".to_string()));
        }
        _ => panic!("tabs"),
    }
    let id = surface_id("btn").unwrap();
    assert!(id.starts_with("btn-"));
    assert!(id["btn-".len()..].chars().all(|c| c.is_ascii_digit()));
}
