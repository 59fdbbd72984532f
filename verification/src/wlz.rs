use vstd::prelude::*;

use crate::wrapper::wl::{Display, List, ListPool};
use crate::wrapper::wlr::{
    Allocator, Backend, Compositor, Cursor, DataDeviceManager, Output, OutputLayout,
    OutputLayoutOutput, OutputMode, Renderer, Scene, SceneOutput, SceneOutputLayout,
    SceneTree, SubCompositor, XCursorManager, XdgPopup, XdgShell, XdgSurface, XdgToplevel,
};
use crate::wrapper::ptr::Ptr;
use crate::wrapper::WrapperError;

verus! {

/// What can go wrong in the compositor.
#[derive(Debug, Clone, PartialEq, Eq)]
pub enum WlzError {
    WErr(WrapperError),
}

impl From<WrapperError> for WlzError {
    fn from(value: WrapperError) -> (e: Self) {
        WlzError::WErr(value)
    }
}

impl vstd::std_specs::convert::FromSpecImpl<WrapperError> for WlzError {
    open spec fn obeys_from_spec() -> bool {
        true
    }

    open spec fn from_spec(v: WrapperError) -> Self {
        WlzError::WErr(v)
    }
}

/// What the pointer is doing to the toplevels.
#[derive(Debug, Clone, Copy, PartialEq, Eq)]
pub enum WlzCursorMode {
    Passthough,
    Move,
    Resize,
}

/// The steps of setting up the compositor, in their order.
#[derive(Debug, Clone, Copy, PartialEq, Eq)]
pub enum InitStage {
    CreateDisplay,
    AutocreateBackend,
    AutocreateRenderer,
    InitWlDisplay,
    AutocreateAllocator,
    CreateCompositor,
    CreateSubCompositor,
    CreateDataDeviceManager,
    CreateOutputLayout,
    ListenNewOutput,
    CreateScene,
    AttachOutputLayout,
    CreateXdgShell,
    ListenXdgShell,
    CreateCursor,
    AttachCursor,
    CreateXCursorManager,
    ListenCursor,
    Done,
    Failed,
}

/// The outside work of each step, with what it works on. The compositor
/// runs it and hands back what the C call returned (an address, NULL as 0;
/// for `InitWlDisplay` 1 for success; for the others 0).
pub enum InitAction {
    /// `wl_display_create`.
    CreateDisplay,
    /// `wlr_backend_autocreate` on the display's event loop.
    AutocreateBackend { display: Display },
    /// `wlr_renderer_autocreate`.
    AutocreateRenderer { backend: Backend },
    /// `wlr_renderer_init_wl_display`.
    InitWlDisplay { renderer: Renderer, display: Display },
    /// `wlr_allocator_autocreate`.
    AutocreateAllocator { backend: Backend, renderer: Renderer },
    /// `wlr_compositor_create`.
    CreateCompositor { display: Display, version: u32, renderer: Renderer },
    /// `wlr_subcompositor_create`.
    CreateSubCompositor { display: Display },
    /// `wlr_data_device_manager_create`.
    CreateDataDeviceManager { display: Display },
    /// `wlr_output_layout_create`.
    CreateOutputLayout { display: Display },
    /// Adds the server's `new_output` listener to the backend's `new_output`
    /// event.
    ListenNewOutput { backend: Backend },
    /// `wlr_scene_create`.
    CreateScene,
    /// `wlr_scene_attach_output_layout`.
    AttachOutputLayout { scene: Scene, output_layout: OutputLayout },
    /// `wlr_xdg_shell_create`.
    CreateXdgShell { display: Display, version: u32 },
    /// Adds the server's `new_xdg_toplevel` and `new_xdg_popup` listeners to
    /// the shell's `new_toplevel` and `new_popup` events.
    ListenXdgShell { xdg_shell: XdgShell },
    /// `wlr_cursor_create`.
    CreateCursor,
    /// `wlr_cursor_attach_output_layout`.
    AttachCursor { cursor: Cursor, output_layout: OutputLayout },
    /// `wlr_xcursor_manager_create` with the default theme (NULL name).
    CreateXCursorManager { size: u32 },
    /// Adds the server's cursor listeners (motion, motion_absolute, button,
    /// axis, frame) to the cursor's events.
    ListenCursor { cursor: Cursor },
    /// The compositor is set up.
    Done,
}

/// The stage that follows each stage when its call succeeded.
pub open spec fn next_stage(s: InitStage) -> InitStage {
    match s {
        InitStage::CreateDisplay => InitStage::AutocreateBackend,
        InitStage::AutocreateBackend => InitStage::AutocreateRenderer,
        InitStage::AutocreateRenderer => InitStage::InitWlDisplay,
        InitStage::InitWlDisplay => InitStage::AutocreateAllocator,
        InitStage::AutocreateAllocator => InitStage::CreateCompositor,
        InitStage::CreateCompositor => InitStage::CreateSubCompositor,
        InitStage::CreateSubCompositor => InitStage::CreateDataDeviceManager,
        InitStage::CreateDataDeviceManager => InitStage::CreateOutputLayout,
        InitStage::CreateOutputLayout => InitStage::ListenNewOutput,
        InitStage::ListenNewOutput => InitStage::CreateScene,
        InitStage::CreateScene => InitStage::AttachOutputLayout,
        InitStage::AttachOutputLayout => InitStage::CreateXdgShell,
        InitStage::CreateXdgShell => InitStage::ListenXdgShell,
        InitStage::ListenXdgShell => InitStage::CreateCursor,
        InitStage::CreateCursor => InitStage::AttachCursor,
        InitStage::AttachCursor => InitStage::CreateXCursorManager,
        InitStage::CreateXCursorManager => InitStage::ListenCursor,
        InitStage::ListenCursor => InitStage::Done,
        InitStage::Done => InitStage::Done,
        InitStage::Failed => InitStage::Failed,
    }
}

/// Whether the step checks what its call returned (NULL, or false, fails).
pub open spec fn checked(s: InitStage) -> bool {
    match s {
        InitStage::ListenNewOutput | InitStage::ListenXdgShell | InitStage::AttachCursor
        | InitStage::ListenCursor | InitStage::Done | InitStage::Failed => false,
        _ => true,
    }
}

/// The error of a checked step whose call failed.
pub open spec fn stage_failure(s: InitStage, e: WrapperError) -> bool {
    match s {
        InitStage::CreateDisplay => e == WrapperError::FailedToCreateDisplay,
        InitStage::AutocreateBackend => e == WrapperError::FailedToCreateBackend,
        InitStage::AutocreateRenderer => e == WrapperError::FailedToCreateRenderer,
        InitStage::InitWlDisplay => e == WrapperError::FailedToInitializeDisplay,
        InitStage::AutocreateAllocator => e == WrapperError::FailedToCreateAllocator,
        InitStage::CreateCompositor => e == WrapperError::FailedToCreateCompositor,
        InitStage::CreateSubCompositor => e == WrapperError::FailedToCreateSubCompositor,
        InitStage::CreateDataDeviceManager => e == WrapperError::FailedToCreateDataDeviceManager,
        InitStage::CreateOutputLayout => e == WrapperError::FailedToCreateOutputLayout,
        InitStage::CreateScene => e == WrapperError::FailedToCreateScene,
        InitStage::AttachOutputLayout => e.is_general("failed to attach output layout to scene"@),
        InitStage::CreateXdgShell => e.is_general("failed to create xdg shell"@),
        InitStage::CreateCursor => e.is_general("Failed to create cursor"@),
        InitStage::CreateXCursorManager => e.is_general("Failed to create xcursor manager"@),
        _ => false,
    }
}

/// Position of a stage in the order of the steps.
pub open spec fn stage_no(s: InitStage) -> int {
    match s {
        InitStage::CreateDisplay => 0,
        InitStage::AutocreateBackend => 1,
        InitStage::AutocreateRenderer => 2,
        InitStage::InitWlDisplay => 3,
        InitStage::AutocreateAllocator => 4,
        InitStage::CreateCompositor => 5,
        InitStage::CreateSubCompositor => 6,
        InitStage::CreateDataDeviceManager => 7,
        InitStage::CreateOutputLayout => 8,
        InitStage::ListenNewOutput => 9,
        InitStage::CreateScene => 10,
        InitStage::AttachOutputLayout => 11,
        InitStage::CreateXdgShell => 12,
        InitStage::ListenXdgShell => 13,
        InitStage::CreateCursor => 14,
        InitStage::AttachCursor => 15,
        InitStage::CreateXCursorManager => 16,
        InitStage::ListenCursor => 17,
        InitStage::Done => 18,
        InitStage::Failed => 19,
    }
}

/// The compositor's own state: its lists of outputs and of mapped
/// toplevels, the cursor mode, and the wlroots objects it set up.
pub struct WlzServer {
    outputs: List,
    toplevels: List,
    cursor_mode: WlzCursorMode,
    stage: InitStage,
    display: Option<Display>,
    backend: Option<Backend>,
    renderer: Option<Renderer>,
    allocator: Option<Allocator>,
    output_layout: Option<OutputLayout>,
    scene: Option<Scene>,
    scene_layout: Option<SceneOutputLayout>,
    xdg_shell: Option<XdgShell>,
    cursor: Option<Cursor>,
    cursor_mgr: Option<XCursorManager>,
}

impl WlzServer {
    pub closed spec fn stage(&self) -> InitStage {
        self.stage
    }

    /// The node of the list of outputs.
    pub closed spec fn outputs(&self) -> usize {
        self.outputs@
    }

    /// The node of the list of mapped toplevels.
    pub closed spec fn toplevels(&self) -> usize {
        self.toplevels@
    }

    pub closed spec fn cursor_mode(&self) -> WlzCursorMode {
        self.cursor_mode
    }

    /// The address of each object that a step has set up, 0 before.
    pub closed spec fn display_addr(&self) -> usize {
        match self.display { Some(d) => d.0@, None => 0 }
    }

    pub closed spec fn backend_addr(&self) -> usize {
        match self.backend { Some(d) => d.0@, None => 0 }
    }

    pub closed spec fn renderer_addr(&self) -> usize {
        match self.renderer { Some(d) => d.0@, None => 0 }
    }

    pub closed spec fn allocator_addr(&self) -> usize {
        match self.allocator { Some(d) => d.0@, None => 0 }
    }

    pub closed spec fn output_layout_addr(&self) -> usize {
        match self.output_layout { Some(d) => d.0@, None => 0 }
    }

    pub closed spec fn scene_addr(&self) -> usize {
        match self.scene { Some(d) => d.0@, None => 0 }
    }

    pub closed spec fn scene_layout_addr(&self) -> usize {
        match self.scene_layout { Some(d) => d.0@, None => 0 }
    }

    pub closed spec fn xdg_shell_addr(&self) -> usize {
        match self.xdg_shell { Some(d) => d.0@, None => 0 }
    }

    pub closed spec fn cursor_addr(&self) -> usize {
        match self.cursor { Some(d) => d.0@, None => 0 }
    }

    pub closed spec fn cursor_mgr_addr(&self) -> usize {
        match self.cursor_mgr { Some(d) => d.0@, None => 0 }
    }

    /// The objects set up so far are recorded; the lists sit in the pool,
    /// and each is linked exactly when its step has run.
    pub closed spec fn wf(&self, pool: ListPool) -> bool {
        let n = stage_no(self.stage);
        &&& pool.wf()
        &&& self.outputs@ < pool.size()
        &&& self.toplevels@ < pool.size()
        &&& self.outputs@ != self.toplevels@
        &&& self.stage != InitStage::Failed ==> {
            &&& (n > 0 <==> self.display.is_some())
            &&& (n > 1 <==> self.backend.is_some())
            &&& (n > 2 <==> self.renderer.is_some())
            &&& (n > 4 <==> self.allocator.is_some())
            &&& (n > 8 <==> self.output_layout.is_some())
            &&& (n > 10 <==> self.scene.is_some())
            &&& (n > 11 <==> self.scene_layout.is_some())
            &&& (n > 12 <==> self.xdg_shell.is_some())
            &&& (n > 14 <==> self.cursor.is_some())
            &&& (n > 16 <==> self.cursor_mgr.is_some())
            &&& (n <= 8 ==> !pool.linked(self.outputs@))
            &&& (n <= 11 ==> !pool.linked(self.toplevels@))
            &&& (n > 8 ==> pool.linked(self.outputs@))
            &&& (n > 11 ==> pool.linked(self.toplevels@))
        }
    }

    /// `a` is the outside work of the current step, on the objects that the
    /// earlier steps created: the compositor global is version 5, the xdg
    /// shell version 3, the cursor theme is the default one at size 24.
    pub open spec fn action_ok(&self, a: InitAction) -> bool {
        match self.stage() {
            InitStage::CreateDisplay => a is CreateDisplay,
            InitStage::AutocreateBackend => a matches InitAction::AutocreateBackend { display }
                && display.0@ == self.display_addr(),
            InitStage::AutocreateRenderer => a matches InitAction::AutocreateRenderer { backend }
                && backend.0@ == self.backend_addr(),
            InitStage::InitWlDisplay => a matches InitAction::InitWlDisplay { renderer, display }
                && renderer.0@ == self.renderer_addr() && display.0@ == self.display_addr(),
            InitStage::AutocreateAllocator => a matches InitAction::AutocreateAllocator {
                backend,
                renderer,
            } && backend.0@ == self.backend_addr() && renderer.0@ == self.renderer_addr(),
            InitStage::CreateCompositor => a matches InitAction::CreateCompositor {
                display,
                version,
                renderer,
            } && display.0@ == self.display_addr() && version == 5 && renderer.0@
                == self.renderer_addr(),
            InitStage::CreateSubCompositor => a matches InitAction::CreateSubCompositor { display }
                && display.0@ == self.display_addr(),
            InitStage::CreateDataDeviceManager => a matches InitAction::CreateDataDeviceManager {
                display,
            } && display.0@ == self.display_addr(),
            InitStage::CreateOutputLayout => a matches InitAction::CreateOutputLayout { display }
                && display.0@ == self.display_addr(),
            InitStage::ListenNewOutput => a matches InitAction::ListenNewOutput { backend }
                && backend.0@ == self.backend_addr(),
            InitStage::CreateScene => a is CreateScene,
            InitStage::AttachOutputLayout => a matches InitAction::AttachOutputLayout {
                scene,
                output_layout,
            } && scene.0@ == self.scene_addr() && output_layout.0@ == self.output_layout_addr(),
            InitStage::CreateXdgShell => a matches InitAction::CreateXdgShell { display, version }
                && display.0@ == self.display_addr() && version == 3,
            InitStage::ListenXdgShell => a matches InitAction::ListenXdgShell { xdg_shell }
                && xdg_shell.0@ == self.xdg_shell_addr(),
            InitStage::CreateCursor => a is CreateCursor,
            InitStage::AttachCursor => a matches InitAction::AttachCursor { cursor, output_layout }
                && cursor.0@ == self.cursor_addr() && output_layout.0@ == self.output_layout_addr(),
            InitStage::CreateXCursorManager => a matches InitAction::CreateXCursorManager { size }
                && size == 24,
            InitStage::ListenCursor => a matches InitAction::ListenCursor { cursor } && cursor.0@
                == self.cursor_addr(),
            _ => a is Done,
        }
    }

    /// The address of the object that step `s` creates and keeps (0 before
    /// the step has run, and for the steps that keep nothing).
    pub open spec fn recorded(&self, s: InitStage) -> usize {
        match s {
            InitStage::CreateDisplay => self.display_addr(),
            InitStage::AutocreateBackend => self.backend_addr(),
            InitStage::AutocreateRenderer => self.renderer_addr(),
            InitStage::AutocreateAllocator => self.allocator_addr(),
            InitStage::CreateOutputLayout => self.output_layout_addr(),
            InitStage::CreateScene => self.scene_addr(),
            InitStage::AttachOutputLayout => self.scene_layout_addr(),
            InitStage::CreateXdgShell => self.xdg_shell_addr(),
            InitStage::CreateCursor => self.cursor_addr(),
            InitStage::CreateXCursorManager => self.cursor_mgr_addr(),
            _ => 0,
        }
    }

    /// The action of the current step, built from what the server holds.
    fn current_action(&self) -> (a: InitAction)
        requires
            self.stage != InitStage::Failed,
            ({
                let n = stage_no(self.stage);
                &&& (n > 0 ==> self.display.is_some())
                &&& (n > 1 ==> self.backend.is_some())
                &&& (n > 2 ==> self.renderer.is_some())
                &&& (n > 8 ==> self.output_layout.is_some())
                &&& (n > 10 ==> self.scene.is_some())
                &&& (n > 12 ==> self.xdg_shell.is_some())
                &&& (n > 14 ==> self.cursor.is_some())
            }),
        ensures
            self.action_ok(a),
    {
        match self.stage {
            InitStage::CreateDisplay => InitAction::CreateDisplay,
            InitStage::AutocreateBackend => InitAction::AutocreateBackend {
                display: self.display.unwrap(),
            },
            InitStage::AutocreateRenderer => InitAction::AutocreateRenderer {
                backend: self.backend.unwrap(),
            },
            InitStage::InitWlDisplay => InitAction::InitWlDisplay {
                renderer: self.renderer.unwrap(),
                display: self.display.unwrap(),
            },
            InitStage::AutocreateAllocator => InitAction::AutocreateAllocator {
                backend: self.backend.unwrap(),
                renderer: self.renderer.unwrap(),
            },
            InitStage::CreateCompositor => InitAction::CreateCompositor {
                display: self.display.unwrap(),
                version: 5,
                renderer: self.renderer.unwrap(),
            },
            InitStage::CreateSubCompositor => InitAction::CreateSubCompositor {
                display: self.display.unwrap(),
            },
            InitStage::CreateDataDeviceManager => InitAction::CreateDataDeviceManager {
                display: self.display.unwrap(),
            },
            InitStage::CreateOutputLayout => InitAction::CreateOutputLayout {
                display: self.display.unwrap(),
            },
            InitStage::ListenNewOutput => InitAction::ListenNewOutput {
                backend: self.backend.unwrap(),
            },
            InitStage::CreateScene => InitAction::CreateScene,
            InitStage::AttachOutputLayout => InitAction::AttachOutputLayout {
                scene: self.scene.unwrap(),
                output_layout: self.output_layout.unwrap(),
            },
            InitStage::CreateXdgShell => InitAction::CreateXdgShell {
                display: self.display.unwrap(),
                version: 3,
            },
            InitStage::ListenXdgShell => InitAction::ListenXdgShell {
                xdg_shell: self.xdg_shell.unwrap(),
            },
            InitStage::CreateCursor => InitAction::CreateCursor,
            InitStage::AttachCursor => InitAction::AttachCursor {
                cursor: self.cursor.unwrap(),
                output_layout: self.output_layout.unwrap(),
            },
            InitStage::CreateXCursorManager => InitAction::CreateXCursorManager { size: 24 },
            InitStage::ListenCursor => InitAction::ListenCursor { cursor: self.cursor.unwrap() },
            _ => InitAction::Done,
        }
    }

    /// Places the server's lists (not initialised yet) and gives the first
    /// step of its setup.
    pub fn initialize(pool: &mut ListPool) -> (r: (WlzServer, InitAction))
        requires
            old(pool).wf(),
            old(pool).size() + 2 <= usize::MAX,
        ensures
            r.0.wf(*final(pool)),
            r.0.stage() == InitStage::CreateDisplay,
            r.0.action_ok(r.1),
            forall|t: InitStage| #[trigger] r.0.recorded(t) == 0,
            r.0.outputs() == old(pool).size(),
            r.0.toplevels() == old(pool).size() + 1,
            r.0.cursor_mode() == WlzCursorMode::Passthough,
            final(pool).size() == old(pool).size() + 2,
            forall|j: usize| #[trigger] final(pool).linked(j) == old(pool).linked(j),
            forall|j: usize| #[trigger] final(pool).ring(j) == old(pool).ring(j),
    {
        let outputs = List::empty(pool);
        let toplevels = List::empty(pool);
        let server = WlzServer {
            outputs,
            toplevels,
            cursor_mode: WlzCursorMode::Passthough,
            stage: InitStage::CreateDisplay,
            display: None,
            backend: None,
            renderer: None,
            allocator: None,
            output_layout: None,
            scene: None,
            scene_layout: None,
            xdg_shell: None,
            cursor: None,
            cursor_mgr: None,
        };
        (server, InitAction::CreateDisplay)
    }

    /// One step of setting up the compositor: `result` is what the current
    /// step's call returned. A checked step whose call returned NULL (or
    /// false) fails with its error; otherwise the server records the new
    /// object and gives the next step. Initialising the lists of outputs and
    /// of toplevels, and setting the cursor mode, happen at their place in
    /// the sequence.
    pub fn init(&mut self, pool: &mut ListPool, result: usize) -> (r: Result<InitAction, WlzError>)
        requires
            old(self).wf(*old(pool)),
            old(self).stage() != InitStage::Done,
            old(self).stage() != InitStage::Failed,
        ensures
            final(self).wf(*final(pool)),
            final(self).outputs() == old(self).outputs(),
            final(self).toplevels() == old(self).toplevels(),
            final(pool).size() == old(pool).size(),
            ({
                let s = old(self).stage();
                if checked(s) && result == 0 {
                    &&& final(self).stage() == InitStage::Failed
                    &&& r matches Err(WlzError::WErr(e)) && stage_failure(s, e)
                } else {
                    &&& final(self).stage() == next_stage(s)
                    &&& r matches Ok(a) && final(self).action_ok(a)
                    &&& (checked(s) && s != InitStage::InitWlDisplay && s != InitStage::CreateCompositor
                        && s != InitStage::CreateSubCompositor && s != InitStage::CreateDataDeviceManager
                        ==> final(self).recorded(s) == result)
                }
            }),
            old(self).stage() == InitStage::CreateOutputLayout && result != 0 ==> final(pool).ring(
                old(self).outputs(),
            ) == seq![old(self).outputs()],
            old(self).stage() == InitStage::AttachOutputLayout && result != 0 ==> final(pool).ring(
                old(self).toplevels(),
            ) == seq![old(self).toplevels()],
            old(self).stage() == InitStage::CreateXCursorManager && result != 0
                ==> final(self).cursor_mode() == WlzCursorMode::Passthough,
            old(self).stage() != InitStage::CreateXCursorManager ==> final(self).cursor_mode()
                == old(self).cursor_mode(),
            old(self).stage() != InitStage::CreateOutputLayout || result == 0 ==> final(pool).ring(
                old(self).outputs(),
            ) == old(pool).ring(old(self).outputs()),
            old(self).stage() != InitStage::AttachOutputLayout || result == 0 ==> final(pool).ring(
                old(self).toplevels(),
            ) == old(pool).ring(old(self).toplevels()),
            (old(self).stage() != InitStage::CreateOutputLayout && old(self).stage()
                != InitStage::AttachOutputLayout) || result == 0 ==> *final(pool) == *old(pool),
            forall|t: InitStage|
                t != old(self).stage() ==> #[trigger] final(self).recorded(t) == old(self).recorded(t),
            forall|j: usize|
                j != old(self).outputs() && j != old(self).toplevels() ==> #[trigger] final(pool).linked(j)
                    == old(pool).linked(j),
            forall|j: usize|
                j != old(self).outputs() && j != old(self).toplevels() ==> #[trigger] final(pool).ring(j)
                    == old(pool).ring(j),
    {
        let stage = self.stage;
        match stage {
            InitStage::CreateDisplay => {
                match Display::try_create(result) {
                    Ok(d) => {
                        self.display = Some(d);
                    },
                    Err(e) => {
                        self.stage = InitStage::Failed;
                        return Err(WlzError::WErr(e));
                    },
                }
                self.stage = InitStage::AutocreateBackend;
            },
            InitStage::AutocreateBackend => {
                match Backend::autocreate(result) {
                    Ok(d) => {
                        self.backend = Some(d);
                    },
                    Err(e) => {
                        self.stage = InitStage::Failed;
                        return Err(WlzError::WErr(e));
                    },
                }
                self.stage = InitStage::AutocreateRenderer;
            },
            InitStage::AutocreateRenderer => {
                match Renderer::autocreate(result) {
                    Ok(d) => {
                        self.renderer = Some(d);
                    },
                    Err(e) => {
                        self.stage = InitStage::Failed;
                        return Err(WlzError::WErr(e));
                    },
                }
                self.stage = InitStage::InitWlDisplay;
            },
            InitStage::InitWlDisplay => {
                match Renderer::init_wl_display(result != 0) {
                    Ok(()) => {},
                    Err(e) => {
                        self.stage = InitStage::Failed;
                        return Err(WlzError::WErr(e));
                    },
                }
                self.stage = InitStage::AutocreateAllocator;
            },
            InitStage::AutocreateAllocator => {
                match Allocator::autocreate(result) {
                    Ok(d) => {
                        self.allocator = Some(d);
                    },
                    Err(e) => {
                        self.stage = InitStage::Failed;
                        return Err(WlzError::WErr(e));
                    },
                }
                self.stage = InitStage::CreateCompositor;
            },
            InitStage::CreateCompositor => {
                match Compositor::create(result) {
                    Ok(_) => {},
                    Err(e) => {
                        self.stage = InitStage::Failed;
                        return Err(WlzError::WErr(e));
                    },
                }
                self.stage = InitStage::CreateSubCompositor;
            },
            InitStage::CreateSubCompositor => {
                match SubCompositor::create(result) {
                    Ok(_) => {},
                    Err(e) => {
                        self.stage = InitStage::Failed;
                        return Err(WlzError::WErr(e));
                    },
                }
                self.stage = InitStage::CreateDataDeviceManager;
            },
            InitStage::CreateDataDeviceManager => {
                match DataDeviceManager::create(result) {
                    Ok(_) => {},
                    Err(e) => {
                        self.stage = InitStage::Failed;
                        return Err(WlzError::WErr(e));
                    },
                }
                self.stage = InitStage::CreateOutputLayout;
            },
            InitStage::CreateOutputLayout => {
                match OutputLayout::create(result) {
                    Ok(d) => {
                        self.output_layout = Some(d);
                    },
                    Err(e) => {
                        self.stage = InitStage::Failed;
                        return Err(WlzError::WErr(e));
                    },
                }
                self.outputs.init(pool);
                self.stage = InitStage::ListenNewOutput;
            },
            InitStage::ListenNewOutput => {
                self.stage = InitStage::CreateScene;
            },
            InitStage::CreateScene => {
                match Scene::create(result) {
                    Ok(d) => {
                        self.scene = Some(d);
                    },
                    Err(e) => {
                        self.stage = InitStage::Failed;
                        return Err(WlzError::WErr(e));
                    },
                }
                self.stage = InitStage::AttachOutputLayout;
            },
            InitStage::AttachOutputLayout => {
                match Scene::attach_output_layout(result) {
                    Ok(d) => {
                        self.scene_layout = Some(d);
                    },
                    Err(e) => {
                        self.stage = InitStage::Failed;
                        return Err(WlzError::WErr(e));
                    },
                }
                self.toplevels.init(pool);
                self.stage = InitStage::CreateXdgShell;
            },
            InitStage::CreateXdgShell => {
                match XdgShell::create(result) {
                    Ok(d) => {
                        self.xdg_shell = Some(d);
                    },
                    Err(e) => {
                        self.stage = InitStage::Failed;
                        return Err(WlzError::WErr(e));
                    },
                }
                self.stage = InitStage::ListenXdgShell;
            },
            InitStage::ListenXdgShell => {
                self.stage = InitStage::CreateCursor;
            },
            InitStage::CreateCursor => {
                match Cursor::create(result) {
                    Ok(d) => {
                        self.cursor = Some(d);
                    },
                    Err(e) => {
                        self.stage = InitStage::Failed;
                        return Err(WlzError::WErr(e));
                    },
                }
                self.stage = InitStage::AttachCursor;
            },
            InitStage::AttachCursor => {
                self.stage = InitStage::CreateXCursorManager;
            },
            InitStage::CreateXCursorManager => {
                match XCursorManager::create(result) {
                    Ok(d) => {
                        self.cursor_mgr = Some(d);
                    },
                    Err(e) => {
                        self.stage = InitStage::Failed;
                        return Err(WlzError::WErr(e));
                    },
                }
                self.cursor_mode = WlzCursorMode::Passthough;
                self.stage = InitStage::ListenCursor;
            },
            InitStage::ListenCursor => {
                self.stage = InitStage::Done;
            },
            _ => {},
        }
        Ok(self.current_action())
    }
}

/// An output of the compositor: its link in the server's list of outputs.
pub struct WlzOutput {
    link: List,
    output: Output,
}

impl WlzOutput {
    /// The node of the output's link.
    pub closed spec fn link(&self) -> usize {
        self.link@
    }

    /// The wlroots output.
    pub closed spec fn output(&self) -> Output {
        self.output
    }

    /// What the output's destroy event does (the object is dropped): its
    /// link leaves the server's list of outputs, and each of its listeners
    /// (the result) leaves the signal it listens to.
    pub fn destroy(self, pool: &mut ListPool) -> (gone: Vec<OutputCallback>)
        requires
            old(pool).wf(),
            old(pool).linked(self.link()),
        ensures
            gone@ == output_wiring(),
            final(pool).wf(),
            final(pool).size() == old(pool).size(),
            !final(pool).linked(self.link()),
            forall|j: usize| j != self.link() ==> #[trigger] final(pool).linked(j) == old(pool).linked(j),
            forall|j: usize, t: int|
                old(pool).linked(j) && j != self.link() && 0 <= t < old(pool).ring(j).len()
                    && #[trigger] old(pool).ring(j)[t] == self.link()
                    ==> final(pool).ring(j) == old(pool).ring(j).remove(t),
            forall|j: usize|
                old(pool).linked(j) && !old(pool).ring(j).contains(self.link())
                    ==> #[trigger] final(pool).ring(j) == old(pool).ring(j),
    {
        self.link.release(pool);
        output_listeners()
    }
}

/// The callbacks of an output, each listening to the output's event of the
/// same name.
#[derive(Debug, Clone, Copy, PartialEq, Eq)]
pub enum OutputCallback {
    OnFrame,
    OnRequestState,
    OnDestroy,
}

/// The listeners of an output, in the order in which they are added: frame,
/// request_state, destroy.
pub open spec fn output_wiring() -> Seq<OutputCallback> {
    seq![OutputCallback::OnFrame, OutputCallback::OnRequestState, OutputCallback::OnDestroy]
}

/// Each of the three callbacks of an output listens once.
pub proof fn law_output_wiring()
    ensures
        output_wiring().len() == 3,
        forall|i: int, j: int| 0 <= i < j < 3 ==> (#[trigger] output_wiring()[i]) != (#[trigger] output_wiring()[j]),
{
}

fn output_listeners() -> (v: Vec<OutputCallback>)
    ensures
        v@ == output_wiring(),
{
    let mut v: Vec<OutputCallback> = Vec::new();
    v.push(OutputCallback::OnFrame);
    v.push(OutputCallback::OnRequestState);
    v.push(OutputCallback::OnDestroy);
    proof {
        assert(v@ =~= output_wiring());
    }
    v
}

/// The steps of taking a new output into use, in their order.
#[derive(Debug, Clone, Copy, PartialEq, Eq)]
pub enum OutputStage {
    InitRender,
    PreferredMode,
    CommitState,
    Listen,
    AddAuto,
    CreateSceneOutput,
    AddSceneOutput,
    Done,
}

/// The outside work of each step of [`NewOutput`], with what it works on.
pub enum OutputAction {
    /// `wlr_output_init_render` with the server's allocator and renderer;
    /// the result is 1 when it succeeded, 0 when it returned false.
    InitRender { output: Output, allocator: Allocator, renderer: Renderer },
    /// `wlr_output_preferred_mode`; the result is the mode's address.
    PreferredMode { output: Output },
    /// A new output state, enabled, with the mode if there is one, committed
    /// to the output and then finished; the result is 1 when the commit
    /// succeeded, 0 when it failed (and applied nothing).
    CommitState { output: Output, mode: Option<OutputMode> },
    /// Adds the output's listeners to its events, in the order of
    /// `listeners`.
    Listen { output: Output, listeners: Vec<OutputCallback> },
    /// `wlr_output_layout_add_auto`; the result is the layout output.
    AddAuto { output_layout: OutputLayout, output: Output },
    /// `wlr_scene_output_create`; the result is the scene output.
    CreateSceneOutput { scene: Scene, output: Output },
    /// `wlr_scene_output_layout_add_output`.
    AddSceneOutput {
        scene_layout: SceneOutputLayout,
        layout_output: OutputLayoutOutput,
        scene_output: SceneOutput,
    },
    /// A step failed and the steps end; the compositor logs the error. After
    /// the commit (placing the output in the layout or the scene) it keeps
    /// the output; before it (setting up the renderer, committing the state)
    /// the output gets no record.
    Failed(WrapperError),
    /// The output is in use.
    Done,
}

/// A new output being taken into use (the server's `new_output` event).
pub struct NewOutput {
    output: Output,
    stage: OutputStage,
    allocator: Allocator,
    renderer: Renderer,
    output_layout: OutputLayout,
    scene: Scene,
    scene_layout: SceneOutputLayout,
    layout_output: Option<OutputLayoutOutput>,
    wlz: Option<WlzOutput>,
}

impl NewOutput {
    pub closed spec fn stage(&self) -> OutputStage {
        self.stage
    }

    pub closed spec fn output(&self) -> Output {
        self.output
    }

    /// The compositor's record of the output, once it has one.
    pub closed spec fn wlz(&self) -> Option<WlzOutput> {
        self.wlz
    }

    /// The address of the layout output that the `AddAuto` step got, 0
    /// before.
    pub closed spec fn layout_output_addr(&self) -> usize {
        match self.layout_output {
            Some(l) => l.0@,
            None => 0,
        }
    }

    /// The steps work on the objects of `server`: its allocator, renderer,
    /// output layout, scene and scene output layout.
    pub closed spec fn made_by(&self, server: WlzServer) -> bool {
        &&& self.allocator.0@ == server.allocator_addr()
        &&& self.renderer.0@ == server.renderer_addr()
        &&& self.output_layout.0@ == server.output_layout_addr()
        &&& self.scene.0@ == server.scene_addr()
        &&& self.scene_layout.0@ == server.scene_layout_addr()
    }

    pub closed spec fn wf(&self) -> bool {
        &&& (self.stage == OutputStage::CreateSceneOutput || self.stage == OutputStage::AddSceneOutput)
            ==> self.layout_output.is_some()
        &&& (self.stage == OutputStage::Listen || self.stage == OutputStage::AddAuto
            || self.stage == OutputStage::CreateSceneOutput
            || self.stage == OutputStage::AddSceneOutput)
            ==> self.wlz.is_some()
        &&& (self.wlz matches Some(w) ==> w.output == self.output)
    }

    /// One step: `result` is what the current step's call returned (the
    /// address for `PreferredMode`, `AddAuto` and `CreateSceneOutput`; 1 for
    /// success and 0 for failure for `InitRender` and `CommitState`; 0 for
    /// the others). A renderer that could not be set up, or a state that
    /// could not be committed, ends the steps with a failure and no record.
    /// The preferred mode is set only when there is one; after the state is
    /// committed the output gets its record, whose link goes first in the
    /// server's list of outputs; a failure to place the output in the layout
    /// or the scene ends the steps with its error.
    pub fn step(&mut self, server: &WlzServer, pool: &mut ListPool, result: usize) -> (a: OutputAction)
        requires
            old(self).wf(),
            server.wf(*old(pool)),
            server.stage() == InitStage::Done,
            old(self).made_by(*server),
            old(self).stage() != OutputStage::Done,
            old(self).stage() == OutputStage::CommitState ==> old(pool).size() < usize::MAX,
        ensures
            final(self).wf(),
            server.wf(*final(pool)),
            final(self).made_by(*server),
            final(self).output() == old(self).output(),
            old(self).stage() != OutputStage::AddAuto ==> final(self).layout_output_addr() == old(
                self,
            ).layout_output_addr(),
            old(self).stage() != OutputStage::CommitState || result == 0 ==> final(self).wlz() == old(
                self,
            ).wlz(),
            match old(self).stage() {
                OutputStage::InitRender => if result == 0 {
                    &&& final(self).stage() == OutputStage::Done
                    &&& a matches OutputAction::Failed(e) && e.is_general(
                        "failed to initialise the output's renderer"@,
                    )
                } else {
                    &&& final(self).stage() == OutputStage::PreferredMode
                    &&& a == (OutputAction::PreferredMode { output: old(self).output() })
                },
                OutputStage::PreferredMode => {
                    &&& final(self).stage() == OutputStage::CommitState
                    &&& a matches OutputAction::CommitState { output, mode }
                    &&& output == old(self).output()
                    &&& mode.is_some() == (result != 0)
                    &&& (mode matches Some(m) ==> m.0@ == result)
                },
                OutputStage::CommitState => if result == 0 {
                    &&& final(self).stage() == OutputStage::Done
                    &&& a matches OutputAction::Failed(e) && e.is_general("failed to commit the output state"@)
                } else {
                    &&& final(self).stage() == OutputStage::Listen
                    &&& a matches OutputAction::Listen { output, listeners } && output == old(self).output()
                        && listeners@ == output_wiring()
                    &&& final(pool).size() == old(pool).size() + 1
                    &&& final(self).wlz() matches Some(w) && {
                        &&& w.output() == old(self).output()
                        &&& w.link() == old(pool).size()
                        &&& final(pool).ring(server.outputs()) == seq![server.outputs(), w.link()]
                            + old(pool).ring(server.outputs()).drop_first()
                    }
                },
                OutputStage::Listen => {
                    &&& final(self).stage() == OutputStage::AddAuto
                    &&& a matches OutputAction::AddAuto { output_layout, output } && output == old(
                        self,
                    ).output() && output_layout.0@ == server.output_layout_addr()
                },
                OutputStage::AddAuto => if result == 0 {
                    &&& final(self).stage() == OutputStage::Done
                    &&& a == OutputAction::Failed(WrapperError::FailedOutputLayoutAddAuto)
                } else {
                    &&& final(self).stage() == OutputStage::CreateSceneOutput
                    &&& final(self).layout_output_addr() == result
                    &&& a matches OutputAction::CreateSceneOutput { scene, output } && output == old(
                        self,
                    ).output() && scene.0@ == server.scene_addr()
                },
                OutputStage::CreateSceneOutput => if result == 0 {
                    &&& final(self).stage() == OutputStage::Done
                    &&& a == OutputAction::Failed(WrapperError::FailedToCreateSceneOutput)
                } else {
                    &&& final(self).stage() == OutputStage::AddSceneOutput
                    &&& a matches OutputAction::AddSceneOutput { scene_layout, layout_output, scene_output }
                        && scene_output.0@ == result && scene_layout.0@ == server.scene_layout_addr()
                        && layout_output.0@ == old(self).layout_output_addr()
                },
                _ => {
                    &&& final(self).stage() == OutputStage::Done
                    &&& a == OutputAction::Done
                },
            },
            old(self).stage() != OutputStage::CommitState || result == 0 ==> *final(pool) == *old(pool),
            forall|j: usize|
                old(pool).linked(j) && j != server.outputs() && !old(pool).ring(server.outputs()).contains(j)
                    ==> #[trigger] final(pool).ring(j) == old(pool).ring(j),
    {
        match self.stage {
            OutputStage::InitRender => {
                if result == 0 {
                    self.stage = OutputStage::Done;
                    return OutputAction::Failed(
                        WrapperError::GeneralError(String::from_str("failed to initialise the output's renderer")),
                    );
                }
                self.stage = OutputStage::PreferredMode;
                OutputAction::PreferredMode { output: self.output }
            },
            OutputStage::PreferredMode => {
                let mode = Output::preferred_mode(result);
                self.stage = OutputStage::CommitState;
                OutputAction::CommitState { output: self.output, mode }
            },
            OutputStage::CommitState => {
                if result == 0 {
                    self.stage = OutputStage::Done;
                    return OutputAction::Failed(
                        WrapperError::GeneralError(String::from_str("failed to commit the output state")),
                    );
                }
                proof {
                    server.lemma_lists_linked(*pool);
                }
                let link = List::empty(pool);
                server.outputs.insert(pool, &link);
                self.wlz = Some(WlzOutput { link, output: self.output });
                self.stage = OutputStage::Listen;
                OutputAction::Listen { output: self.output, listeners: output_listeners() }
            },
            OutputStage::Listen => {
                self.stage = OutputStage::AddAuto;
                OutputAction::AddAuto { output_layout: self.output_layout, output: self.output }
            },
            OutputStage::AddAuto => {
                match OutputLayout::add_auto(result) {
                    Ok(l) => {
                        self.layout_output = Some(l);
                        self.stage = OutputStage::CreateSceneOutput;
                        OutputAction::CreateSceneOutput { scene: self.scene, output: self.output }
                    },
                    Err(e) => {
                        self.stage = OutputStage::Done;
                        OutputAction::Failed(e)
                    },
                }
            },
            OutputStage::CreateSceneOutput => {
                match Scene::output_create(result) {
                    Ok(so) => {
                        self.stage = OutputStage::AddSceneOutput;
                        OutputAction::AddSceneOutput {
                            scene_layout: self.scene_layout,
                            layout_output: self.layout_output.unwrap(),
                            scene_output: so,
                        }
                    },
                    Err(e) => {
                        self.stage = OutputStage::Done;
                        OutputAction::Failed(e)
                    },
                }
            },
            _ => {
                self.stage = OutputStage::Done;
                OutputAction::Done
            },
        }
    }

    /// The compositor's record of the output, once the steps are over.
    pub fn into_output(self) -> (w: Option<WlzOutput>)
        requires
            self.wf(),
        ensures
            w == self.wlz(),
    {
        self.wlz
    }
}

impl WlzServer {
    /// A server that is well formed over a pool is so over a well-formed
    /// pool, and its lists sit in the pool.
    pub proof fn lemma_wf_pool(&self, pool: ListPool)
        requires
            self.wf(pool),
        ensures
            pool.wf(),
            self.outputs() < pool.size(),
            self.toplevels() < pool.size(),
            self.outputs() != self.toplevels(),
    {
    }

    /// Once set up, the server's lists are linked in the pool.
    pub proof fn lemma_lists_linked(&self, pool: ListPool)
        requires
            self.wf(pool),
            self.stage() == InitStage::Done,
        ensures
            pool.linked(self.outputs()),
            pool.linked(self.toplevels()),
            self.outputs() < pool.size(),
            self.toplevels() < pool.size(),
    {
    }

    /// The `new_output` event: a new output (a display or monitor) is
    /// available. Gives the steps of taking it into use; the first is
    /// `wlr_output_init_render`.
    pub fn new_output(&self, pool: &ListPool, output: Output) -> (r: (NewOutput, OutputAction))
        requires
            self.wf(*pool),
            self.stage() == InitStage::Done,
        ensures
            r.0.wf(),
            r.0.stage() == OutputStage::InitRender,
            r.0.output() == output,
            r.0.wlz().is_none(),
            r.0.made_by(*self),
            r.0.layout_output_addr() == 0,
            r.1 matches OutputAction::InitRender { output: o, allocator, renderer } && o == output
                && allocator.0@ == self.allocator_addr() && renderer.0@ == self.renderer_addr(),
    {
        let allocator = self.allocator.unwrap();
        let renderer = self.renderer.unwrap();
        let no = NewOutput {
            output,
            stage: OutputStage::PreferredMode,
            allocator,
            renderer,
            output_layout: self.output_layout.unwrap(),
            scene: self.scene.unwrap(),
            scene_layout: self.scene_layout.unwrap(),
            layout_output: None,
            wlz: None,
        };
        (NewOutput { stage: OutputStage::InitRender, ..no }, OutputAction::InitRender { output, allocator, renderer })
    }
}

/// The events of a toplevel and of its surface that the compositor listens to.
#[derive(Debug, Clone, Copy, PartialEq, Eq)]
pub enum ToplevelEvent {
    SurfaceMap,
    SurfaceUnmap,
    SurfaceCommit,
    Destroy,
    RequestMove,
    RequestResize,
    RequestMaximize,
    RequestFullscreen,
}

/// The callbacks of a toplevel.
#[derive(Debug, Clone, Copy, PartialEq, Eq)]
pub enum ToplevelCallback {
    OnMap,
    OnUnmap,
    OnCommit,
    OnDestroy,
    OnRequestMove,
    OnRequestResize,
    OnRequestMaximize,
    OnRequestFullscreen,
}

/// Which callback of a toplevel listens to which event, in the order in
/// which they are added.
pub open spec fn toplevel_wiring() -> Seq<(ToplevelCallback, ToplevelEvent)> {
    seq![
        (ToplevelCallback::OnMap, ToplevelEvent::SurfaceMap),
        (ToplevelCallback::OnUnmap, ToplevelEvent::SurfaceUnmap),
        (ToplevelCallback::OnCommit, ToplevelEvent::SurfaceCommit),
        (ToplevelCallback::OnDestroy, ToplevelEvent::Destroy),
        (ToplevelCallback::OnRequestMove, ToplevelEvent::RequestMove),
        (ToplevelCallback::OnRequestResize, ToplevelEvent::RequestResize),
        (ToplevelCallback::OnRequestMaximize, ToplevelEvent::RequestMaximize),
        (ToplevelCallback::OnRequestFullscreen, ToplevelEvent::RequestFullscreen),
    ]
}

/// The event each callback of a toplevel is named after.
pub open spec fn toplevel_event_of(c: ToplevelCallback) -> ToplevelEvent {
    match c {
        ToplevelCallback::OnMap => ToplevelEvent::SurfaceMap,
        ToplevelCallback::OnUnmap => ToplevelEvent::SurfaceUnmap,
        ToplevelCallback::OnCommit => ToplevelEvent::SurfaceCommit,
        ToplevelCallback::OnDestroy => ToplevelEvent::Destroy,
        ToplevelCallback::OnRequestMove => ToplevelEvent::RequestMove,
        ToplevelCallback::OnRequestResize => ToplevelEvent::RequestResize,
        ToplevelCallback::OnRequestMaximize => ToplevelEvent::RequestMaximize,
        ToplevelCallback::OnRequestFullscreen => ToplevelEvent::RequestFullscreen,
    }
}

/// Each of the eight callbacks of a toplevel listens once, and to the event
/// it is named after.
pub proof fn law_toplevel_wiring()
    ensures
        toplevel_wiring().len() == 8,
        forall|k: int|
            0 <= k < 8 ==> (#[trigger] toplevel_wiring()[k]).1 == toplevel_event_of(toplevel_wiring()[k].0),
        forall|i: int, j: int|
            0 <= i < j < 8 ==> (#[trigger] toplevel_wiring()[i]).0 != (#[trigger] toplevel_wiring()[j]).0,
{
}

/// The listeners of a toplevel, as [`toplevel_wiring`] lists them.
fn toplevel_listeners() -> (v: Vec<(ToplevelCallback, ToplevelEvent)>)
    ensures
        v@ == toplevel_wiring(),
{
    let mut listeners: Vec<(ToplevelCallback, ToplevelEvent)> = Vec::new();
    listeners.push((ToplevelCallback::OnMap, ToplevelEvent::SurfaceMap));
    listeners.push((ToplevelCallback::OnUnmap, ToplevelEvent::SurfaceUnmap));
    listeners.push((ToplevelCallback::OnCommit, ToplevelEvent::SurfaceCommit));
    listeners.push((ToplevelCallback::OnDestroy, ToplevelEvent::Destroy));
    listeners.push((ToplevelCallback::OnRequestMove, ToplevelEvent::RequestMove));
    listeners.push((ToplevelCallback::OnRequestResize, ToplevelEvent::RequestResize));
    listeners.push((ToplevelCallback::OnRequestMaximize, ToplevelEvent::RequestMaximize));
    listeners.push((ToplevelCallback::OnRequestFullscreen, ToplevelEvent::RequestFullscreen));
    proof {
        assert(listeners@ =~= toplevel_wiring());
    }
    listeners
}

/// The outside work of setting up a toplevel.
pub enum ToplevelAction {
    /// `wlr_scene_xdg_surface_create` on the tree of the server's scene for
    /// the toplevel's xdg-surface; the result is the new scene tree.
    CreateSceneTree { scene: Scene, xdg_surface: XdgSurface },
    /// The scene tree's node data points at the toplevel and the
    /// xdg-surface's data at the scene tree; then each callback listens to
    /// its event, in the order of `listeners`.
    Attach {
        scene_tree: SceneTree,
        xdg_surface: XdgSurface,
        listeners: Vec<(ToplevelCallback, ToplevelEvent)>,
    },
}

/// A toplevel (application window) of the compositor: its link in the
/// server's list of mapped toplevels and the objects it works on.
pub struct WlzToplevel {
    link: List,
    xdg_toplevel: XdgToplevel,
    scene_tree: Option<SceneTree>,
}

impl WlzToplevel {
    /// The node of the toplevel's link.
    pub closed spec fn link(&self) -> usize {
        self.link@
    }

    pub closed spec fn scene_tree(&self) -> Option<SceneTree> {
        self.scene_tree
    }

    pub closed spec fn xdg_toplevel(&self) -> XdgToplevel {
        self.xdg_toplevel
    }

    /// The second step of setting up the toplevel: `created` is the scene
    /// tree that `wlr_scene_xdg_surface_create` returned (a NULL one
    /// panics, so it is not NULL here).
    pub fn init(&mut self, created: usize) -> (a: ToplevelAction)
        requires
            created != 0,
            old(self).xdg_toplevel().base != 0,
        ensures
            final(self).link() == old(self).link(),
            final(self).xdg_toplevel() == old(self).xdg_toplevel(),
            final(self).scene_tree() matches Some(t) && t.0@ == created,
            a matches ToplevelAction::Attach { scene_tree, xdg_surface, listeners } && scene_tree.0@
                == created && xdg_surface.0@ == old(self).xdg_toplevel().base && listeners@
                == toplevel_wiring(),
    {
        let tree = SceneTree::xdg_surface_create(created).unwrap();
        self.scene_tree = Some(tree);
        let listeners = toplevel_listeners();
        ToplevelAction::Attach { scene_tree: tree, xdg_surface: self.xdg_toplevel.base(), listeners }
    }

    /// The map event (the surface is ready to be shown): the toplevel's link
    /// goes first in the server's list of mapped toplevels. (Focusing the
    /// toplevel comes next, and the compositor has no handler for it.)
    pub fn map(&self, server: &WlzServer, pool: &mut ListPool)
        requires
            server.wf(*old(pool)),
            server.stage() == InitStage::Done,
            self.link() < old(pool).size(),
            self.link() != server.toplevels(),
            !old(pool).linked(self.link()),
        ensures
            server.wf(*final(pool)),
            final(pool).size() == old(pool).size(),
            final(pool).linked(self.link()),
            final(pool).ring(server.toplevels()) == seq![server.toplevels(), self.link()] + old(
                pool,
            ).ring(server.toplevels()).drop_first(),
            forall|j: usize|
                old(pool).linked(j) && j != self.link() && !old(pool).ring(server.toplevels()).contains(j)
                    ==> #[trigger] final(pool).ring(j) == old(pool).ring(j),
    {
        proof {
            server.lemma_lists_linked(*old(pool));
        }
        server.toplevels.insert(pool, &self.link);
    }

    /// What the toplevel's destroy event does (the object is dropped): a
    /// mapped toplevel's link leaves the list of mapped toplevels; the link
    /// of a toplevel that was never mapped is in no list, and the pool stays
    /// as it was. The result lists the toplevel's listeners, each of which
    /// leaves the signal it listens to.
    pub fn destroy(self, pool: &mut ListPool) -> (gone: Vec<(ToplevelCallback, ToplevelEvent)>)
        requires
            old(pool).wf(),
            self.link() < old(pool).size(),
        ensures
            gone@ == toplevel_wiring(),
            final(pool).wf(),
            final(pool).size() == old(pool).size(),
            !final(pool).linked(self.link()),
            !old(pool).linked(self.link()) ==> *final(pool) == *old(pool),
            forall|j: usize| j != self.link() ==> #[trigger] final(pool).linked(j) == old(pool).linked(j),
            forall|j: usize, t: int|
                old(pool).linked(j) && j != self.link() && 0 <= t < old(pool).ring(j).len()
                    && #[trigger] old(pool).ring(j)[t] == self.link()
                    ==> final(pool).ring(j) == old(pool).ring(j).remove(t),
            forall|j: usize|
                old(pool).linked(j) && !old(pool).ring(j).contains(self.link())
                    ==> #[trigger] final(pool).ring(j) == old(pool).ring(j),
    {
        proof {
            pool.lemma_links_complete(self.link());
        }
        if pool.get_link(self.link.node()).next.is_some() {
            self.link.release(pool);
        } else {
            proof {
                assert forall|j: usize, t: int|
                    pool.linked(j) && 0 <= t < pool.ring(j).len() implies #[trigger] pool.ring(j)[t]
                    != self.link() by {
                    pool.lemma_ring_facts(j);
                }
            }
        }
        toplevel_listeners()
    }
}

/// A popup of the compositor.
pub struct WlzPopup {
    xdg_popup: XdgPopup,
}

/// The events of a popup and of its surface that the compositor listens to.
#[derive(Debug, Clone, Copy, PartialEq, Eq)]
pub enum PopupEvent {
    Destroy,
    SurfaceCommit,
}

/// The callbacks of a popup.
#[derive(Debug, Clone, Copy, PartialEq, Eq)]
pub enum PopupCallback {
    OnDestroy,
    OnCommit,
}

/// Which callback of a popup listens to which event: the destroy callback
/// to the popup's destroy event, the commit callback to the commit event of
/// its surface.
pub open spec fn popup_wiring() -> Seq<(PopupCallback, PopupEvent)> {
    seq![(PopupCallback::OnDestroy, PopupEvent::Destroy), (PopupCallback::OnCommit, PopupEvent::SurfaceCommit)]
}

/// The event each callback of a popup is named after.
pub open spec fn popup_event_of(c: PopupCallback) -> PopupEvent {
    match c {
        PopupCallback::OnDestroy => PopupEvent::Destroy,
        PopupCallback::OnCommit => PopupEvent::SurfaceCommit,
    }
}

/// Each of the two callbacks of a popup listens once, and to the event it
/// is named after.
pub proof fn law_popup_wiring()
    ensures
        popup_wiring().len() == 2,
        forall|k: int| 0 <= k < 2 ==> (#[trigger] popup_wiring()[k]).1 == popup_event_of(popup_wiring()[k].0),
        popup_wiring()[0].0 != popup_wiring()[1].0,
{
}

fn popup_listeners() -> (v: Vec<(PopupCallback, PopupEvent)>)
    ensures
        v@ == popup_wiring(),
{
    let mut v: Vec<(PopupCallback, PopupEvent)> = Vec::new();
    v.push((PopupCallback::OnDestroy, PopupEvent::Destroy));
    v.push((PopupCallback::OnCommit, PopupEvent::SurfaceCommit));
    proof {
        assert(v@ =~= popup_wiring());
    }
    v
}

/// The outside work of setting up a popup.
pub enum PopupAction {
    /// `wlr_scene_xdg_surface_create` under the parent's scene tree for the
    /// popup's xdg-surface; the result is the new scene tree.
    CreateSceneTree { parent_tree: SceneTree, xdg_surface: XdgSurface },
    /// The xdg-surface's data points at the new scene tree; then each
    /// callback of the popup listens to its event, in the order of
    /// `listeners`.
    Attach { xdg_surface: XdgSurface, scene_tree: SceneTree, listeners: Vec<(PopupCallback, PopupEvent)> },
}

impl WlzPopup {
    pub closed spec fn xdg_popup(&self) -> XdgPopup {
        self.xdg_popup
    }

    /// The second step of setting up the popup: `created` is the scene tree
    /// that `wlr_scene_xdg_surface_create` returned (a NULL one panics, so
    /// it is not NULL here).
    pub fn attach(&self, created: usize) -> (a: PopupAction)
        requires
            created != 0,
            self.xdg_popup().base != 0,
        ensures
            a matches PopupAction::Attach { xdg_surface, scene_tree, listeners } && xdg_surface.0@
                == self.xdg_popup().base && scene_tree.0@ == created && listeners@ == popup_wiring(),
    {
        let tree = SceneTree::xdg_surface_create(created).unwrap();
        PopupAction::Attach {
            xdg_surface: self.xdg_popup.base().unwrap(),
            scene_tree: tree,
            listeners: popup_listeners(),
        }
    }

    /// What the popup's destroy event does (the object is dropped): each of
    /// its listeners leaves the signal it listens to.
    pub fn destroy(self) -> (gone: Vec<(PopupCallback, PopupEvent)>)
        ensures
            gone@ == popup_wiring(),
    {
        popup_listeners()
    }
}

impl WlzServer {
    /// The `new_xdg_toplevel` event: a client created a toplevel. Places
    /// the toplevel's link (not yet in any list) and gives the first step of
    /// its setup.
    pub fn new_xdg_toplevel(&self, pool: &mut ListPool, xdg_toplevel: XdgToplevel) -> (r: (
        WlzToplevel,
        ToplevelAction,
    ))
        requires
            self.wf(*old(pool)),
            self.stage() == InitStage::Done,
            xdg_toplevel.base != 0,
            old(pool).size() < usize::MAX,
        ensures
            self.wf(*final(pool)),
            r.0.link() == old(pool).size(),
            !final(pool).linked(r.0.link()),
            r.0.scene_tree().is_none(),
            r.0.xdg_toplevel() == xdg_toplevel,
            final(pool).size() == old(pool).size() + 1,
            r.1 matches ToplevelAction::CreateSceneTree { scene, xdg_surface } && scene.0@
                == self.scene_addr() && xdg_surface.0@ == xdg_toplevel.base,
            forall|j: usize| #[trigger] final(pool).linked(j) == old(pool).linked(j),
            forall|j: usize| #[trigger] final(pool).ring(j) == old(pool).ring(j),
    {
        let link = List::empty(pool);
        let base = xdg_toplevel.base();
        (
            WlzToplevel { link, xdg_toplevel, scene_tree: None },
            ToplevelAction::CreateSceneTree { scene: self.scene.unwrap(), xdg_surface: base },
        )
    }

    /// The `new_xdg_popup` event: a client created a popup. The popup is
    /// shown under its parent's scene tree, which the parent surface's data
    /// points at (`parent_data`). The compositor panics when the popup has
    /// no parent, the parent has no scene tree, or the popup no xdg-surface.
    pub fn new_xdg_popup(&self, xdg_popup: XdgPopup, parent_data: usize) -> (r: (WlzPopup, PopupAction))
        requires
            xdg_popup.parent != 0,
            xdg_popup.base != 0,
            parent_data != 0,
        ensures
            r.0.xdg_popup() == xdg_popup,
            r.1 matches PopupAction::CreateSceneTree { parent_tree, xdg_surface } && parent_tree.0@
                == parent_data && xdg_surface.0@ == xdg_popup.base,
    {
        let parent_tree = SceneTree(Ptr::new(parent_data).unwrap());
        let base = xdg_popup.base().unwrap();
        (WlzPopup { xdg_popup }, PopupAction::CreateSceneTree { parent_tree, xdg_surface: base })
    }
}

} // verus!
