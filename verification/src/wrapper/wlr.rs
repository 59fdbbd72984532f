use vstd::prelude::*;
use vstd::string::StringSliceAdditionalSpecFns;
use vstd::string::StringExecFns;

use super::error::{NulError, WrapperError};
use super::ptr::Ptr;

verus! {

/// A backend provides a set of input and output devices (`wlr_backend`).
#[derive(Clone, Copy)]
pub struct Backend(pub Ptr);

/// A renderer for basic 2D operations (`wlr_renderer`).
#[derive(Clone, Copy)]
pub struct Renderer(pub Ptr);

/// An allocator is responsible for allocating memory for pixel buffers (`wlr_allocator`).
#[derive(Clone, Copy)]
pub struct Allocator(pub Ptr);

/// The `wl_compositor` global, which clients use to create surfaces (`wlr_compositor`).
#[derive(Clone, Copy)]
pub struct Compositor(pub Ptr);

/// The `wl_subcompositor` global (`wlr_subcompositor`).
#[derive(Clone, Copy)]
pub struct SubCompositor(pub Ptr);

/// The `wl_data_device_manager` global of a display (`wlr_data_device_manager`).
#[derive(Clone, Copy)]
pub struct DataDeviceManager(pub Ptr);

/// Helper to arrange outputs in a 2D coordinate space (`wlr_output_layout`).
#[derive(Clone, Copy)]
pub struct OutputLayout(pub Ptr);

/// An output as placed in an output layout (`wlr_output_layout_output`).
#[derive(Clone, Copy)]
pub struct OutputLayoutOutput(pub Ptr);

/// A compositor output region, typically a monitor (`wlr_output`).
#[derive(Clone, Copy)]
pub struct Output(pub Ptr);

/// Holds the double-buffered output state (`wlr_output_state`).
#[derive(Clone, Copy)]
pub struct OutputState(pub Ptr);

/// A mode of an output: resolution and refresh rate (`wlr_output_mode`).
#[derive(Clone, Copy)]
pub struct OutputMode(pub Ptr);

/// Keeps the scene outputs where the output layout places them (`wlr_scene_output_layout`).
#[derive(Clone, Copy)]
pub struct SceneOutputLayout(pub Ptr);

/// A viewport for an output in the scene-graph (`wlr_scene_output`).
#[derive(Clone, Copy)]
pub struct SceneOutput(pub Ptr);

/// The root scene-graph node (`wlr_scene`).
#[derive(Clone, Copy)]
pub struct Scene(pub Ptr);

/// The xdg_wm_base global (`wlr_xdg_shell`).
#[derive(Clone, Copy)]
pub struct XdgShell(pub Ptr);

/// The cursor image shown on screen (`wlr_cursor`).
#[derive(Clone, Copy)]
pub struct Cursor(pub Ptr);

/// Loads xcursor themes at the sizes that outputs need (`wlr_xcursor_manager`).
#[derive(Clone, Copy)]
pub struct XCursorManager(pub Ptr);

/// A client surface (`wlr_surface`).
#[derive(Clone, Copy)]
pub struct Surface(pub Ptr);

/// A node of the scene-graph (`wlr_scene_node`).
#[derive(Clone, Copy)]
pub struct SceneNode(pub Ptr);

/// A sub-tree in the scene-graph (`wlr_scene_tree`).
#[derive(Clone, Copy)]
pub struct SceneTree(pub Ptr);

/// An xdg-surface: a user interface element that the compositor manages (`wlr_xdg_surface`).
#[derive(Clone, Copy)]
pub struct XdgSurface(pub Ptr);

impl Backend {
    /// `wlr_backend_autocreate`: the most suitable backend for the environment.
    ///
    /// `created` is what the C constructor returned; NULL means it failed.
    pub fn autocreate(created: usize) -> (r: Result<Backend, WrapperError>)
        ensures
            match r {
                Ok(v) => created != 0 && v.0@ == created,
                Err(e) => created == 0 && e == WrapperError::FailedToCreateBackend,
            },
    {
        match Ptr::new(created) {
            Some(p) => Ok(Backend(p)),
            None => Err(WrapperError::FailedToCreateBackend),
        }
    }
}

impl Renderer {
    /// `wlr_renderer_autocreate`: a renderer suited to the backend.
    ///
    /// `created` is what the C constructor returned; NULL means it failed.
    pub fn autocreate(created: usize) -> (r: Result<Renderer, WrapperError>)
        ensures
            match r {
                Ok(v) => created != 0 && v.0@ == created,
                Err(e) => created == 0 && e == WrapperError::FailedToCreateRenderer,
            },
    {
        match Ptr::new(created) {
            Some(p) => Ok(Renderer(p)),
            None => Err(WrapperError::FailedToCreateRenderer),
        }
    }
}

impl Renderer {
    /// `wlr_renderer_init_wl_display`: initialises wl_shm, linux-dmabuf and
    /// the other buffer factory protocols; `done` is what the C call returned.
    pub fn init_wl_display(done: bool) -> (r: Result<(), WrapperError>)
        ensures
            r == if done {
                Ok(())
            } else {
                Err::<(), WrapperError>(WrapperError::FailedToInitializeDisplay)
            },
    {
        if done {
            Ok(())
        } else {
            Err(WrapperError::FailedToInitializeDisplay)
        }
    }
}

impl Allocator {
    /// `wlr_allocator_autocreate`: the allocator for a backend and a renderer.
    ///
    /// `created` is what the C constructor returned; NULL means it failed.
    pub fn autocreate(created: usize) -> (r: Result<Allocator, WrapperError>)
        ensures
            match r {
                Ok(v) => created != 0 && v.0@ == created,
                Err(e) => created == 0 && e == WrapperError::FailedToCreateAllocator,
            },
    {
        match Ptr::new(created) {
            Some(p) => Ok(Allocator(p)),
            None => Err(WrapperError::FailedToCreateAllocator),
        }
    }
}

impl Compositor {
    /// `wlr_compositor_create`: the wl_compositor global.
    ///
    /// `created` is what the C constructor returned; NULL means it failed.
    pub fn create(created: usize) -> (r: Result<Compositor, WrapperError>)
        ensures
            match r {
                Ok(v) => created != 0 && v.0@ == created,
                Err(e) => created == 0 && e == WrapperError::FailedToCreateCompositor,
            },
    {
        match Ptr::new(created) {
            Some(p) => Ok(Compositor(p)),
            None => Err(WrapperError::FailedToCreateCompositor),
        }
    }
}

impl SubCompositor {
    /// `wlr_subcompositor_create`: the wl_subcompositor global.
    ///
    /// `created` is what the C constructor returned; NULL means it failed.
    pub fn create(created: usize) -> (r: Result<SubCompositor, WrapperError>)
        ensures
            match r {
                Ok(v) => created != 0 && v.0@ == created,
                Err(e) => created == 0 && e == WrapperError::FailedToCreateSubCompositor,
            },
    {
        match Ptr::new(created) {
            Some(p) => Ok(SubCompositor(p)),
            None => Err(WrapperError::FailedToCreateSubCompositor),
        }
    }
}

impl DataDeviceManager {
    /// `wlr_data_device_manager_create`: the wl_data_device_manager global.
    ///
    /// `created` is what the C constructor returned; NULL means it failed.
    pub fn create(created: usize) -> (r: Result<DataDeviceManager, WrapperError>)
        ensures
            match r {
                Ok(v) => created != 0 && v.0@ == created,
                Err(e) => created == 0 && e == WrapperError::FailedToCreateDataDeviceManager,
            },
    {
        match Ptr::new(created) {
            Some(p) => Ok(DataDeviceManager(p)),
            None => Err(WrapperError::FailedToCreateDataDeviceManager),
        }
    }
}

impl OutputLayout {
    /// `wlr_output_layout_create`: an empty output layout.
    ///
    /// `created` is what the C constructor returned; NULL means it failed.
    pub fn create(created: usize) -> (r: Result<OutputLayout, WrapperError>)
        ensures
            match r {
                Ok(v) => created != 0 && v.0@ == created,
                Err(e) => created == 0 && e == WrapperError::FailedToCreateOutputLayout,
            },
    {
        match Ptr::new(created) {
            Some(p) => Ok(OutputLayout(p)),
            None => Err(WrapperError::FailedToCreateOutputLayout),
        }
    }
}

impl OutputLayout {
    /// `wlr_output_layout_add_auto`: the output placed automatically in the layout.
    ///
    /// `created` is what the C constructor returned; NULL means it failed.
    pub fn add_auto(created: usize) -> (r: Result<OutputLayoutOutput, WrapperError>)
        ensures
            match r {
                Ok(v) => created != 0 && v.0@ == created,
                Err(e) => created == 0 && e == WrapperError::FailedOutputLayoutAddAuto,
            },
    {
        match Ptr::new(created) {
            Some(p) => Ok(OutputLayoutOutput(p)),
            None => Err(WrapperError::FailedOutputLayoutAddAuto),
        }
    }
}

impl Scene {
    /// `wlr_scene_create`: a new scene-graph.
    ///
    /// `created` is what the C constructor returned; NULL means it failed.
    pub fn create(created: usize) -> (r: Result<Scene, WrapperError>)
        ensures
            match r {
                Ok(v) => created != 0 && v.0@ == created,
                Err(e) => created == 0 && e == WrapperError::FailedToCreateScene,
            },
    {
        match Ptr::new(created) {
            Some(p) => Ok(Scene(p)),
            None => Err(WrapperError::FailedToCreateScene),
        }
    }
}

impl Scene {
    /// `wlr_scene_output_create`: a viewport for an output in the scene-graph.
    ///
    /// `created` is what the C constructor returned; NULL means it failed.
    pub fn output_create(created: usize) -> (r: Result<SceneOutput, WrapperError>)
        ensures
            match r {
                Ok(v) => created != 0 && v.0@ == created,
                Err(e) => created == 0 && e == WrapperError::FailedToCreateSceneOutput,
            },
    {
        match Ptr::new(created) {
            Some(p) => Ok(SceneOutput(p)),
            None => Err(WrapperError::FailedToCreateSceneOutput),
        }
    }
}

impl Scene {
    /// `wlr_scene_attach_output_layout`: keeps scene outputs where the layout places them.
    ///
    /// `created` is what the C constructor returned; NULL means it failed.
    pub fn attach_output_layout(created: usize) -> (r: Result<SceneOutputLayout, WrapperError>)
        ensures
            match r {
                Ok(v) => created != 0 && v.0@ == created,
                Err(e) => created == 0 && e.is_general("failed to attach output layout to scene"@),
            },
    {
        match Ptr::new(created) {
            Some(p) => Ok(SceneOutputLayout(p)),
            None => Err(WrapperError::GeneralError(String::from_str("failed to attach output layout to scene"))),
        }
    }
}

impl XdgShell {
    /// `wlr_xdg_shell_create`: the xdg_wm_base global.
    ///
    /// `created` is what the C constructor returned; NULL means it failed.
    pub fn create(created: usize) -> (r: Result<XdgShell, WrapperError>)
        ensures
            match r {
                Ok(v) => created != 0 && v.0@ == created,
                Err(e) => created == 0 && e.is_general("failed to create xdg shell"@),
            },
    {
        match Ptr::new(created) {
            Some(p) => Ok(XdgShell(p)),
            None => Err(WrapperError::GeneralError(String::from_str("failed to create xdg shell"))),
        }
    }
}

impl Cursor {
    /// `wlr_cursor_create`: a new cursor.
    ///
    /// `created` is what the C constructor returned; NULL means it failed.
    pub fn create(created: usize) -> (r: Result<Cursor, WrapperError>)
        ensures
            match r {
                Ok(v) => created != 0 && v.0@ == created,
                Err(e) => created == 0 && e.is_general("Failed to create cursor"@),
            },
    {
        match Ptr::new(created) {
            Some(p) => Ok(Cursor(p)),
            None => Err(WrapperError::GeneralError(String::from_str("Failed to create cursor"))),
        }
    }
}

impl XCursorManager {
    /// `wlr_xcursor_manager_create`: a manager for an xcursor theme.
    ///
    /// `created` is what the C constructor returned; NULL means it failed.
    pub fn create(created: usize) -> (r: Result<XCursorManager, WrapperError>)
        ensures
            match r {
                Ok(v) => created != 0 && v.0@ == created,
                Err(e) => created == 0 && e.is_general("Failed to create xcursor manager"@),
            },
    {
        match Ptr::new(created) {
            Some(p) => Ok(XCursorManager(p)),
            None => Err(WrapperError::GeneralError(String::from_str("Failed to create xcursor manager"))),
        }
    }
}

impl Output {
    /// `wlr_output_preferred_mode`: the preferred mode of the output, none
    /// when the output does not support modes (`mode` is what the C call
    /// returned).
    pub fn preferred_mode(mode: usize) -> (r: Option<OutputMode>)
        ensures
            r.is_some() == (mode != 0),
            r matches Some(m) ==> m.0@ == mode,
    {
        match Ptr::new(mode) {
            Some(p) => Some(OutputMode(p)),
            None => None,
        }
    }
}

impl SceneTree {
    /// `wlr_scene_xdg_surface_create`: the scene node that displays an
    /// xdg-surface, none when the C call returned NULL.
    pub fn xdg_surface_create(created: usize) -> (r: Option<SceneTree>)
        ensures
            r.is_some() == (created != 0),
            r matches Some(t) ==> t.0@ == created,
    {
        match Ptr::new(created) {
            Some(p) => Some(SceneTree(p)),
            None => None,
        }
    }
}

/// The theme name as `wlr_xcursor_manager_create` takes it: no name is
/// passed as NULL; a name goes as a C string, which cannot hold a NUL byte.
pub open spec fn theme_arg_ok(name: Option<&str>, r: Result<Option<Vec<u8>>, WrapperError>) -> bool {
    match name {
        None => r == Ok::<Option<Vec<u8>>, WrapperError>(None),
        Some(n) => {
            let b = n.spec_bytes();
            match r {
                Ok(Some(v)) => v@ == b && !b.contains(0u8),
                Ok(None) => false,
                Err(e) => match e {
                    WrapperError::NulError(ne) => {
                        &&& ne.nul_position < b.len()
                        &&& b[ne.nul_position as int] == 0u8
                        &&& forall|j: int| 0 <= j < ne.nul_position ==> b[j] != 0u8
                    },
                    _ => false,
                },
            }
        },
    }
}

impl XCursorManager {
    /// The theme argument of `wlr_xcursor_manager_create`, or the error that
    /// `CString::new` gives for a name with a NUL byte.
    pub fn theme_name(name: Option<&str>) -> (r: Result<Option<Vec<u8>>, WrapperError>)
        ensures
            theme_arg_ok(name, r),
    {
        if name.is_none() {
            return Ok(None);
        }
        let n = name.unwrap();
        let bytes = n.as_bytes();
        let mut v: Vec<u8> = Vec::new();
        let mut i: usize = 0;
        while i < bytes.len()
            invariant
                0 <= i <= bytes@.len(),
                bytes@ == n.spec_bytes(),
                name == Some(n),
                v@ == bytes@.subrange(0, i as int),
                forall|j: int| 0 <= j < i ==> bytes@[j] != 0u8,
            decreases bytes@.len() - i,
        {
            if bytes[i] == 0 {
                return Err(WrapperError::NulError(NulError { nul_position: i }));
            }
            v.push(bytes[i]);
            i = i + 1;
        }
        proof {
            assert(v@ =~= bytes@);
        }
        Ok(Some(v))
    }
}

/// The events of the xdg shell.
#[derive(Debug, Clone, Copy, PartialEq, Eq)]
pub enum XdgShellEvent {
    NewSurface,
    NewToplevel,
    NewPopup,
    Destroy,
}

/// A toplevel (application window): what the logic reads of
/// `wlr_xdg_toplevel`, its `base` pointer.
#[derive(Clone, Copy)]
pub struct XdgToplevel {
    pub ptr: Ptr,
    pub base: usize,
}

impl XdgToplevel {
    /// The xdg-surface of the toplevel; wlroots never leaves it NULL (a NULL
    /// one panics).
    pub fn base(&self) -> (s: XdgSurface)
        requires
            self.base != 0,
        ensures
            s.0@ == self.base,
    {
        XdgSurface(Ptr::new(self.base).unwrap())
    }
}

/// A popup: what the logic reads of `wlr_xdg_popup`, its `parent` and
/// `base` pointers.
#[derive(Clone, Copy)]
pub struct XdgPopup {
    pub ptr: Ptr,
    pub parent: usize,
    pub base: usize,
}

impl XdgPopup {
    /// The parent surface, none when the popup has none.
    pub fn parent(&self) -> (s: Option<Surface>)
        ensures
            s.is_some() == (self.parent != 0),
            s matches Some(p) ==> p.0@ == self.parent,
    {
        match Ptr::new(self.parent) {
            Some(p) => Some(Surface(p)),
            None => None,
        }
    }

    /// The xdg-surface of the popup, none when it is NULL.
    pub fn base(&self) -> (s: Option<XdgSurface>)
        ensures
            s.is_some() == (self.base != 0),
            s matches Some(b) ==> b.0@ == self.base,
    {
        match Ptr::new(self.base) {
            Some(p) => Some(XdgSurface(p)),
            None => None,
        }
    }
}

} // verus!
