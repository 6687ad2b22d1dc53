use oqto::api::{sample_kind, SampleKind};
use oqto::api::{register_step, RegisterAction, RegisterEvent, RegisterStage};
use oqto::agent_service::{RuntimeMode, Session};
use oqto::api::{
    auth_cookie, dev_login_identity, health_response, login_identity, logout_cookie,
    pending_updates, session_update_status, session_urls, workspace_dir_entries,
    workspace_dir_relative, workspace_entry_path, LoginSource, Persona, PersonaResponse,
    SessionWithPersona, SessionWithUrls, UserInfo, WorkspaceDirQuery, WorkspaceMode,
};
use oqto::api_error::ApiError;
use oqto::auth::AuthError;

fn session(persona: Option<&str>) -> Session {
    Session {
        id: "abc".to_string(),
        container_id: None,
        workspace_path: "/data/abc".to_string(),
        opencode_port: 41820,
        agent_base_port: None,
        max_agents: None,
        runtime_mode: RuntimeMode::Local,
        persona_path: persona.map(|p| p.to_string()),
        mmry_port: None,
    }
}

fn persona() -> Persona {
    Persona {
        id: "writer".to_string(),
        name: "Writer".to_string(),
        description: "Writes".to_string(),
        color: Some("#fff".to_string()),
        avatar: None,
        is_default: true,
        agent_id: "build".to_string(),
        default_workdir: None,
        workspace_mode: WorkspaceMode::DefaultOnly,
        standalone: false,
        project_access: true,
    }
}

fn user(id: &str) -> UserInfo {
    UserInfo { id: id.to_string(), name: "N".to_string(), email: "e".to_string(), role: "user".to_string() }
}

#[test]
fn health_and_session_urls() {
    let h = health_response("9.9.9");
    assert_eq!((h.status.as_str(), h.version.as_str()), ("ok", "9.9.9"));
    let u = session_urls("abc");
    assert_eq!(u.opencode, "/session/abc/code");
    assert_eq!(u.fileserver, "/session/abc/files");
    assert_eq!(u.terminal, "/session/abc/term");
}

#[test]
fn personas_shown_only_for_sessions_with_persona_dir() {
    let with = SessionWithUrls::from_session(session(Some("/p")), "localhost", Some(persona()));
    assert!(with.persona.is_some());
    assert_eq!(with.urls.terminal, "/session/abc/term");
    let without = SessionWithPersona::from_session(session(None), Some(persona()));
    assert!(without.persona.is_none());
    let r = PersonaResponse::from_persona(persona());
    assert_eq!(r.workspace_mode, "default_only");
    assert_eq!(r.agent_id, "build");
    let mut p = persona();
    p.workspace_mode = WorkspaceMode::Ask;
    assert_eq!(PersonaResponse::from_persona(p).workspace_mode, "ask");
}

#[test]
fn update_statuses() {
    let s = session_update_status("x".to_string(), None);
    assert!(!s.update_available);
    let s = session_update_status("x".to_string(), Some("sha256:1".to_string()));
    assert!(s.update_available);
    let all = pending_updates(vec![("a".to_string(), "d1".to_string()), ("b".to_string(), "d2".to_string())]);
    assert_eq!(all.len(), 2);
    assert_eq!(all[1].session_id, "b");
    assert_eq!(all[1].new_digest.as_deref(), Some("d2"));
}

#[test]
fn workspace_paths_must_stay_inside_the_root() {
    assert_eq!(workspace_dir_relative(&WorkspaceDirQuery { path: None }).unwrap(), ".");
    assert_eq!(workspace_dir_relative(&WorkspaceDirQuery { path: Some("a/b".to_string()) }).unwrap(), "a/b");
    for bad in ["/etc", "../x", "a/../../b", ".."] {
        let e = workspace_dir_relative(&WorkspaceDirQuery { path: Some(bad.to_string()) }).unwrap_err();
        assert!(matches!(e, ApiError::BadRequest(ref m) if m == "invalid path"));
    }
    assert!(workspace_dir_relative(&WorkspaceDirQuery { path: Some("a..b".to_string()) }).is_ok());
}

#[test]
fn workspace_entries_sorted_with_relative_paths() {
    let e = workspace_dir_entries(".", vec!["zeta".to_string(), "Alpha".to_string(), "beta".to_string()]);
    let names: Vec<&str> = e.iter().map(|x| x.name.as_str()).collect();
    assert_eq!(names, vec!["Alpha", "beta", "zeta"]);
    assert_eq!(e[0].path, "Alpha");
    assert_eq!(e[0].entry_type, "directory");
    assert_eq!(workspace_entry_path("proj/./src/", "lib"), "proj/src/lib");
    assert_eq!(workspace_entry_path("", "x"), "x");
}

#[test]
fn cookies_depend_on_dev_mode() {
    assert_eq!(auth_cookie("tok", true), "auth_token=tok; Path=/; HttpOnly; SameSite=Lax; Max-Age=86400");
    assert_eq!(
        auth_cookie("tok", false),
        "auth_token=tok; Path=/; HttpOnly; SameSite=Lax; Secure; Max-Age=86400"
    );
    assert_eq!(logout_cookie(), "auth_token=; Path=/; HttpOnly; SameSite=Lax; Max-Age=0");
}

#[test]
fn login_prefers_database_then_dev_users() {
    let (src, u) = login_identity(Some(user("db")), true, Some(user("dev"))).unwrap();
    assert_eq!((src, u.id.as_str()), (LoginSource::Database, "db"));
    let (src, u) = login_identity(None, true, Some(user("dev"))).unwrap();
    assert_eq!((src, u.id.as_str()), (LoginSource::DevUser, "dev"));
    let e = login_identity(None, false, Some(user("dev"))).unwrap_err();
    assert!(matches!(e, ApiError::Unauthorized(ref m) if m == "Invalid username or password"));
    assert!(login_identity(None, true, None).is_err());
    assert_eq!(dev_login_identity(true, Some(user("d"))).unwrap().id, "d");
    assert!(matches!(dev_login_identity(false, Some(user("d"))), Err(AuthError::InvalidCredentials)));
    assert!(matches!(dev_login_identity(true, None), Err(AuthError::InvalidCredentials)));
}

#[test]
fn sample_kinds_by_name() {
    assert_eq!(sample_kind("simple_text"), SampleKind::SimpleText);
    assert_eq!(sample_kind("button_group"), SampleKind::ButtonGroup);
    assert_eq!(sample_kind("form"), SampleKind::Form);
    assert_eq!(sample_kind("card"), SampleKind::Card);
    assert_eq!(sample_kind("question"), SampleKind::Question);
    assert_eq!(sample_kind("Form"), SampleKind::Unknown);
    assert_eq!(sample_kind(""), SampleKind::Unknown);
}

#[test]
fn registration_steps() {
    let (s, a) = register_step(RegisterStage::ConsumingInvite, RegisterEvent::InviteConsumed);
    assert_eq!(s, RegisterStage::CreatingUser);
    assert!(matches!(a, RegisterAction::CreateUser));

    let (s, a) = register_step(RegisterStage::ConsumingInvite, RegisterEvent::InviteRefused("Invite code expired".to_string()));
    assert_eq!(s, RegisterStage::Failed);
    match a {
        RegisterAction::Fail(ApiError::BadRequest(m)) => assert_eq!(m, "Invite code expired"),
        other => panic!("unexpected {:?}", other),
    }

    let (s, a) = register_step(RegisterStage::CreatingUser, RegisterEvent::UserRefused(ApiError::Conflict("taken".to_string())));
    assert_eq!(s, RegisterStage::Failed);
    assert!(matches!(a, RegisterAction::RestoreInviteAndFail(ApiError::Conflict(ref m)) if m == "taken"));

    let (s, a) = register_step(RegisterStage::CreatingUser, RegisterEvent::UserCreated);
    assert_eq!(s, RegisterStage::Complete);
    assert!(matches!(a, RegisterAction::Finish));

    let (s, a) = register_step(RegisterStage::Complete, RegisterEvent::InviteConsumed);
    assert_eq!(s, RegisterStage::Complete);
    assert!(matches!(a, RegisterAction::Ignore));
}

#[test]
fn registration_gives_invite_back_on_failure() {
    // Consumed, then the account creation fails: one use taken, one given back.
    let mut held = 0i32;
    let mut stage = RegisterStage::ConsumingInvite;
    for e in [RegisterEvent::InviteConsumed, RegisterEvent::UserRefused(ApiError::Internal("db".to_string()))] {
        let (s, a) = register_step(stage, e);
        stage = s;
        match a {
            RegisterAction::CreateUser => held += 1,
            RegisterAction::RestoreInviteAndFail(_) => held -= 1,
            _ => {}
        }
    }
    assert_eq!(stage, RegisterStage::Failed);
    assert_eq!(held, 0);
}
