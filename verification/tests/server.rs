use wlz::wlz::{
    InitAction, NewOutput, OutputAction, OutputCallback, PopupAction, PopupCallback, PopupEvent,
    ToplevelAction, ToplevelCallback, ToplevelEvent, WlzError, WlzServer,
};
use wlz::wrapper::ptr::Ptr;
use wlz::wrapper::wl::ListPool;
use wlz::wrapper::wlr::{Output, XdgPopup, XdgToplevel};
use wlz::wrapper::WrapperError;

/// Runs the setup, answering each step with a made-up address (or success),
/// except at step `fail_at`, whose call fails.
fn set_up(pool: &mut ListPool, fail_at: Option<usize>) -> (WlzServer, Vec<String>, Result<(), WlzError>) {
    let (mut server, mut action) = WlzServer::initialize(pool);
    let mut names = Vec::new();
    let mut step = 0usize;
    loop {
        let name = match &action {
            InitAction::CreateDisplay => "CreateDisplay",
            InitAction::AutocreateBackend { .. } => "AutocreateBackend",
            InitAction::AutocreateRenderer { .. } => "AutocreateRenderer",
            InitAction::InitWlDisplay { .. } => "InitWlDisplay",
            InitAction::AutocreateAllocator { .. } => "AutocreateAllocator",
            InitAction::CreateCompositor { version, .. } => {
                assert_eq!(*version, 5);
                "CreateCompositor"
            }
            InitAction::CreateSubCompositor { .. } => "CreateSubCompositor",
            InitAction::CreateDataDeviceManager { .. } => "CreateDataDeviceManager",
            InitAction::CreateOutputLayout { .. } => "CreateOutputLayout",
            InitAction::ListenNewOutput { .. } => "ListenNewOutput",
            InitAction::CreateScene => "CreateScene",
            InitAction::AttachOutputLayout { .. } => "AttachOutputLayout",
            InitAction::CreateXdgShell { version, .. } => {
                assert_eq!(*version, 3);
                "CreateXdgShell"
            }
            InitAction::ListenXdgShell { .. } => "ListenXdgShell",
            InitAction::CreateCursor => "CreateCursor",
            InitAction::AttachCursor { .. } => "AttachCursor",
            InitAction::CreateXCursorManager { size } => {
                assert_eq!(*size, 24);
                "CreateXCursorManager"
            }
            InitAction::ListenCursor { .. } => "ListenCursor",
            InitAction::Done => return (server, names, Ok(())),
        };
        names.push(name.to_string());
        let result = if fail_at == Some(step) { 0 } else { 0x1000 + 0x100 * step };
        match server.init(pool, result) {
            Ok(a) => action = a,
            Err(e) => return (server, names, Err(e)),
        }
        step += 1;
    }
}

#[test]
fn setup_runs_every_step_in_order() {
    let mut pool = ListPool::new();
    let (_server, names, res) = set_up(&mut pool, None);
    assert_eq!(res, Ok(()));
    let expected = [
        "CreateDisplay",
        "AutocreateBackend",
        "AutocreateRenderer",
        "InitWlDisplay",
        "AutocreateAllocator",
        "CreateCompositor",
        "CreateSubCompositor",
        "CreateDataDeviceManager",
        "CreateOutputLayout",
        "ListenNewOutput",
        "CreateScene",
        "AttachOutputLayout",
        "CreateXdgShell",
        "ListenXdgShell",
        "CreateCursor",
        "AttachCursor",
        "CreateXCursorManager",
        "ListenCursor",
    ];
    assert_eq!(names, expected);
}

#[test]
fn setup_passes_the_objects_it_made() {
    let mut pool = ListPool::new();
    let (mut server, _) = WlzServer::initialize(&mut pool);
    let a = server.init(&mut pool, 0xd00).unwrap();
    match a {
        InitAction::AutocreateBackend { display } => assert_eq!(display.0.addr(), 0xd00),
        _ => panic!("wrong step"),
    }
    let a = server.init(&mut pool, 0xb00).unwrap();
    match a {
        InitAction::AutocreateRenderer { backend } => assert_eq!(backend.0.addr(), 0xb00),
        _ => panic!("wrong step"),
    }
}

#[test]
fn setup_stops_at_first_failure() {
    let mut pool = ListPool::new();
    let (_, names, res) = set_up(&mut pool, Some(2));
    assert_eq!(res, Err(WlzError::WErr(WrapperError::FailedToCreateRenderer)));
    assert_eq!(names.len(), 3);
    let (_, _, res) = set_up(&mut pool, Some(3));
    assert_eq!(res, Err(WlzError::WErr(WrapperError::FailedToInitializeDisplay)));
    let (_, _, res) = set_up(&mut pool, Some(0));
    assert_eq!(res, Err(WlzError::WErr(WrapperError::FailedToCreateDisplay)));
    let (_, _, res) = set_up(&mut pool, Some(11));
    assert_eq!(
        res,
        Err(WlzError::WErr(WrapperError::GeneralError(
            "failed to attach output layout to scene".to_string()
        )))
    );
    let (_, _, res) = set_up(&mut pool, Some(16));
    assert_eq!(
        res,
        Err(WlzError::WErr(WrapperError::GeneralError("Failed to create xcursor manager".to_string())))
    );
}

#[test]
fn listen_steps_ignore_their_result() {
    let mut pool = ListPool::new();
    // a 0 answer to ListenNewOutput (step 9) does not fail the setup
    let (_, names, res) = set_up(&mut pool, Some(9));
    assert_eq!(res, Ok(()));
    assert_eq!(names.len(), 18);
}

fn output(addr: usize) -> Output {
    Output(Ptr::new(addr).unwrap())
}

/// Runs the new-output steps with the given answers to the preferred mode,
/// add_auto and scene output calls (the renderer is set up and the state
/// committed).
fn add_output(
    server: &WlzServer,
    pool: &mut ListPool,
    out: Output,
    mode: usize,
    layout: usize,
    scene_output: usize,
) -> (NewOutput, Vec<OutputAction>) {
    let (mut no, first) = server.new_output(pool, out);
    let mut actions = vec![first];
    loop {
        let result = match actions.last().unwrap() {
            OutputAction::InitRender { .. } => 1,
            OutputAction::CommitState { .. } => 1,
            OutputAction::PreferredMode { .. } => mode,
            OutputAction::AddAuto { .. } => layout,
            OutputAction::CreateSceneOutput { .. } => scene_output,
            OutputAction::Failed(_) | OutputAction::Done => return (no, actions),
            _ => 0,
        };
        actions.push(no.step(server, pool, result));
    }
}

#[test]
fn new_output_sets_preferred_mode_only_if_there_is_one() {
    let mut pool = ListPool::new();
    let (server, _, _) = set_up(&mut pool, None);
    let (_, actions) = add_output(&server, &mut pool, output(0x7000), 0x7100, 0x7200, 0x7300);
    assert_eq!(actions.len(), 8);
    match &actions[3] {
        OutputAction::Listen { listeners, .. } => assert_eq!(
            *listeners,
            vec![OutputCallback::OnFrame, OutputCallback::OnRequestState, OutputCallback::OnDestroy]
        ),
        _ => panic!("expected the listen step"),
    }
    match &actions[2] {
        OutputAction::CommitState { output, mode } => {
            assert_eq!(output.0.addr(), 0x7000);
            assert_eq!(mode.unwrap().0.addr(), 0x7100);
        }
        _ => panic!("expected the commit step"),
    }
    match &actions[6] {
        OutputAction::AddSceneOutput { layout_output, scene_output, .. } => {
            assert_eq!(layout_output.0.addr(), 0x7200);
            assert_eq!(scene_output.0.addr(), 0x7300);
        }
        _ => panic!("expected the scene output step"),
    }
    assert!(matches!(actions[7], OutputAction::Done));
    let (_, actions) = add_output(&server, &mut pool, output(0x8000), 0, 0x8200, 0x8300);
    match &actions[2] {
        OutputAction::CommitState { mode, .. } => assert!(mode.is_none()),
        _ => panic!("expected the commit step"),
    }
}

#[test]
fn new_output_failures_end_the_steps() {
    let mut pool = ListPool::new();
    let (server, _, _) = set_up(&mut pool, None);
    let (_, actions) = add_output(&server, &mut pool, output(0x7000), 0, 0, 0x7300);
    assert!(matches!(
        actions.last().unwrap(),
        OutputAction::Failed(WrapperError::FailedOutputLayoutAddAuto)
    ));
    let (_, actions) = add_output(&server, &mut pool, output(0x7000), 0, 0x7200, 0);
    assert!(matches!(
        actions.last().unwrap(),
        OutputAction::Failed(WrapperError::FailedToCreateSceneOutput)
    ));
}

#[test]
fn outputs_list_newest_first_and_destroy_removes() {
    let mut pool = ListPool::new();
    let (server, _, _) = set_up(&mut pool, None);
    let (a, _) = add_output(&server, &mut pool, output(0x7000), 0, 1, 1);
    let (b, _) = add_output(&server, &mut pool, output(0x8000), 0, 1, 1);
    let a = a.into_output().unwrap();
    let b = b.into_output().unwrap();
    // the head of the outputs list is the first node placed by initialize
    let head = 0;
    let first = pool.get_link(head).next.unwrap();
    let second = pool.get_link(first).next.unwrap();
    assert_eq!(pool.get_link(second).next, Some(head));
    let gone = b.destroy(&mut pool);
    assert_eq!(gone.len(), 3);
    assert_eq!(pool.get_link(head).next, Some(second));
    assert_eq!(pool.get_link(second).next, Some(head));
    a.destroy(&mut pool);
    assert_eq!(pool.get_link(head).next, Some(head));
}

#[test]
fn toplevel_setup_and_map() {
    let mut pool = ListPool::new();
    let (server, _, _) = set_up(&mut pool, None);
    let xt = XdgToplevel { ptr: Ptr::new(0x9000).unwrap(), base: 0x9100 };
    let (mut top, first) = server.new_xdg_toplevel(&mut pool, xt);
    match first {
        ToplevelAction::CreateSceneTree { xdg_surface, .. } => assert_eq!(xdg_surface.0.addr(), 0x9100),
        _ => panic!("expected the scene tree step"),
    }
    match top.init(0x9200) {
        ToplevelAction::Attach { scene_tree, xdg_surface, listeners } => {
            assert_eq!(scene_tree.0.addr(), 0x9200);
            assert_eq!(xdg_surface.0.addr(), 0x9100);
            assert_eq!(listeners.len(), 8);
            assert_eq!(listeners[0], (ToplevelCallback::OnMap, ToplevelEvent::SurfaceMap));
            assert_eq!(listeners[2], (ToplevelCallback::OnCommit, ToplevelEvent::SurfaceCommit));
            assert_eq!(listeners[7], (ToplevelCallback::OnRequestFullscreen, ToplevelEvent::RequestFullscreen));
        }
        _ => panic!("expected the attach step"),
    }
    // the toplevels list is the second node placed by initialize
    let head = 1;
    assert_eq!(pool.get_link(head).next, Some(head));
    top.map(&server, &mut pool);
    let linked = pool.get_link(head).next.unwrap();
    assert_ne!(linked, head);
    assert_eq!(pool.get_link(linked).next, Some(head));
    top.destroy(&mut pool);
    assert_eq!(pool.get_link(head).next, Some(head));
}

#[test]
fn popup_setup() {
    let mut pool = ListPool::new();
    let (server, _, _) = set_up(&mut pool, None);
    let xp = XdgPopup { ptr: Ptr::new(0xa000).unwrap(), parent: 0xa100, base: 0xa200 };
    let (popup, first) = server.new_xdg_popup(xp, 0xa300);
    match first {
        PopupAction::CreateSceneTree { parent_tree, xdg_surface } => {
            assert_eq!(parent_tree.0.addr(), 0xa300);
            assert_eq!(xdg_surface.0.addr(), 0xa200);
        }
        _ => panic!("expected the scene tree step"),
    }
    match popup.attach(0xa400) {
        PopupAction::Attach { xdg_surface, scene_tree, listeners } => {
            assert_eq!(xdg_surface.0.addr(), 0xa200);
            assert_eq!(scene_tree.0.addr(), 0xa400);
            assert_eq!(
                listeners,
                vec![
                    (PopupCallback::OnDestroy, PopupEvent::Destroy),
                    (PopupCallback::OnCommit, PopupEvent::SurfaceCommit)
                ]
            );
        }
        _ => panic!("expected the attach step"),
    }
}

#[test]
fn toplevel_never_mapped_is_destroyed_without_touching_lists() {
    let mut pool = ListPool::new();
    let (server, _, _) = set_up(&mut pool, None);
    let xt = XdgToplevel { ptr: Ptr::new(0xb000).unwrap(), base: 0xb100 };
    let (mut top, _) = server.new_xdg_toplevel(&mut pool, xt);
    let _ = top.init(0xb200);
    let head = 1;
    let size = pool.len();
    top.destroy(&mut pool);
    assert_eq!(pool.len(), size);
    assert_eq!(pool.get_link(head).next, Some(head));
    assert_eq!(pool.get_link(0).next, Some(0));
}

#[test]
fn new_output_renderer_and_commit_failures_end_the_steps() {
    let mut pool = ListPool::new();
    let (server, _, _) = set_up(&mut pool, None);
    let size = pool.len();
    let (mut no, _) = server.new_output(&mut pool, output(0xc000));
    match no.step(&server, &mut pool, 0) {
        OutputAction::Failed(WrapperError::GeneralError(m)) => {
            assert_eq!(m, "failed to initialise the output's renderer")
        }
        _ => panic!("expected a failure"),
    }
    assert!(no.into_output().is_none());
    let (mut no, _) = server.new_output(&mut pool, output(0xc000));
    assert!(matches!(no.step(&server, &mut pool, 1), OutputAction::PreferredMode { .. }));
    assert!(matches!(no.step(&server, &mut pool, 0), OutputAction::CommitState { .. }));
    match no.step(&server, &mut pool, 0) {
        OutputAction::Failed(WrapperError::GeneralError(m)) => assert_eq!(m, "failed to commit the output state"),
        _ => panic!("expected a failure"),
    }
    assert!(no.into_output().is_none());
    assert_eq!(pool.len(), size);
}

#[test]
fn destroyed_toplevels_and_popups_give_up_their_listeners() {
    let mut pool = ListPool::new();
    let (server, _, _) = set_up(&mut pool, None);
    let xt = XdgToplevel { ptr: Ptr::new(0xd000).unwrap(), base: 0xd100 };
    let (mut top, _) = server.new_xdg_toplevel(&mut pool, xt);
    let wiring = match top.init(0xd200) {
        ToplevelAction::Attach { listeners, .. } => listeners,
        _ => panic!("expected the attach step"),
    };
    assert_eq!(top.destroy(&mut pool), wiring);
    let xp = XdgPopup { ptr: Ptr::new(0xe000).unwrap(), parent: 0xe100, base: 0xe200 };
    let (popup, _) = server.new_xdg_popup(xp, 0xe300);
    assert_eq!(popup.destroy().len(), 2);
}
