use wlz::wl::WlDisplay;
use wlz::wrapper::log::{loggable, LogLevel};
use wlz::wrapper::wl::Display;
use wlz::wrapper::wlr::{
    Allocator, Backend, Compositor, Cursor, DataDeviceManager, Output, OutputLayout, Renderer,
    Scene, SceneTree, SubCompositor, XCursorManager, XdgPopup, XdgShell, XdgToplevel,
};
use wlz::wrapper::ptr::Ptr;
use wlz::wrapper::{NulError, Utf8Error, WrapperError};

fn general(msg: &str) -> WrapperError {
    WrapperError::GeneralError(msg.to_string())
}

#[test]
fn log_levels_map_to_wlroots_importance() {
    assert_eq!(u32::from(LogLevel::Silent), 0);
    assert_eq!(u32::from(LogLevel::Error), 1);
    assert_eq!(u32::from(LogLevel::Info), 2);
    let d: u32 = LogLevel::Debug.into();
    assert_eq!(d, 3);
}

#[test]
fn log_messages_with_nul_are_refused() {
    assert!(loggable("Got socket: wayland-1"));
    assert!(!loggable("bad\0message"));
}

#[test]
fn ptr_refuses_null() {
    assert!(Ptr::new(0).is_none());
    assert_eq!(Ptr::new(0x1000).unwrap().addr(), 0x1000);
}

#[test]
fn constructors_map_null_to_their_error() {
    assert_eq!(Display::try_create(0).err(), Some(WrapperError::FailedToCreateDisplay));
    assert_eq!(Display::try_create(0x10).unwrap().0.addr(), 0x10);
    assert_eq!(Backend::autocreate(0).err(), Some(WrapperError::FailedToCreateBackend));
    assert_eq!(Backend::autocreate(0x20).unwrap().0.addr(), 0x20);
    assert_eq!(Renderer::autocreate(0).err(), Some(WrapperError::FailedToCreateRenderer));
    assert_eq!(Renderer::init_wl_display(false), Err(WrapperError::FailedToInitializeDisplay));
    assert_eq!(Renderer::init_wl_display(true), Ok(()));
    assert_eq!(
        Scene::attach_output_layout(0).err(),
        Some(general("failed to attach output layout to scene"))
    );
    assert_eq!(XdgShell::create(0).err(), Some(general("failed to create xdg shell")));
    assert_eq!(Cursor::create(0).err(), Some(general("Failed to create cursor")));
    assert_eq!(
        XCursorManager::create(0).err(),
        Some(general("Failed to create xcursor manager"))
    );
    assert_eq!(Scene::output_create(0).err(), Some(WrapperError::FailedToCreateSceneOutput));
}

#[test]
fn preferred_mode_and_scene_tree_are_optional() {
    assert!(Output::preferred_mode(0).is_none());
    assert_eq!(Output::preferred_mode(0x30).unwrap().0.addr(), 0x30);
    assert!(SceneTree::xdg_surface_create(0).is_none());
    assert_eq!(SceneTree::xdg_surface_create(0x40).unwrap().0.addr(), 0x40);
}

#[test]
fn xcursor_theme_name() {
    assert_eq!(XCursorManager::theme_name(None), Ok(None));
    assert_eq!(XCursorManager::theme_name(Some("Adwaita")), Ok(Some(b"Adwaita".to_vec())));
    assert_eq!(
        XCursorManager::theme_name(Some("ab\0c\0")),
        Err(WrapperError::NulError(NulError { nul_position: 2 }))
    );
}

#[test]
fn socket_name_is_read_as_utf8() {
    assert_eq!(Display::add_socket_auto(None), Err(WrapperError::FailedToAddSocket));
    assert_eq!(Display::add_socket_auto(Some(b"wayland-1".to_vec())), Ok("wayland-1".to_string()));
    assert_eq!(
        Display::add_socket_auto(Some(vec![b'w', b'l', 0xff, b'x'])),
        Err(WrapperError::Utf8Error(Utf8Error { valid_up_to: 2 }))
    );
    assert_eq!(WlDisplay::add_socket_auto(Some(b"wayland-0".to_vec())), Some("wayland-0".to_string()));
    assert_eq!(WlDisplay::add_socket_auto(Some(vec![0xc3])), None);
    assert_eq!(WlDisplay::add_socket_auto(None), None);
}

#[test]
fn wl_display_try_create() {
    assert!(WlDisplay::try_create(0).is_none());
    assert_eq!(WlDisplay::try_create(0x50).unwrap().disp.addr(), 0x50);
}

#[test]
fn popup_parent_and_base() {
    let ptr = Ptr::new(0x100).unwrap();
    let orphan = XdgPopup { ptr, parent: 0, base: 0x200 };
    assert!(orphan.parent().is_none());
    assert_eq!(orphan.base().unwrap().0.addr(), 0x200);
    let child = XdgPopup { ptr, parent: 0x300, base: 0 };
    assert_eq!(child.parent().unwrap().0.addr(), 0x300);
    assert!(child.base().is_none());
}

#[test]
fn toplevel_base() {
    let t = XdgToplevel { ptr: Ptr::new(0x100).unwrap(), base: 0x180 };
    assert_eq!(t.base().0.addr(), 0x180);
}

#[test]
fn wrapper_errors_convert() {
    let e: WrapperError = NulError { nul_position: 3 }.into();
    assert_eq!(e, WrapperError::NulError(NulError { nul_position: 3 }));
    let e: WrapperError = Utf8Error { valid_up_to: 1 }.into();
    assert_eq!(e, WrapperError::Utf8Error(Utf8Error { valid_up_to: 1 }));
}

#[test]
fn every_constructor_has_its_error() {
    assert_eq!(Allocator::autocreate(0).err(), Some(WrapperError::FailedToCreateAllocator));
    assert_eq!(Compositor::create(0).err(), Some(WrapperError::FailedToCreateCompositor));
    assert_eq!(SubCompositor::create(0).err(), Some(WrapperError::FailedToCreateSubCompositor));
    assert_eq!(
        DataDeviceManager::create(0).err(),
        Some(WrapperError::FailedToCreateDataDeviceManager)
    );
    assert_eq!(OutputLayout::create(0).err(), Some(WrapperError::FailedToCreateOutputLayout));
    assert_eq!(OutputLayout::add_auto(0).err(), Some(WrapperError::FailedOutputLayoutAddAuto));
    assert_eq!(Scene::create(0).err(), Some(WrapperError::FailedToCreateScene));
    assert_eq!(Allocator::autocreate(0x60).unwrap().0.addr(), 0x60);
    assert_eq!(OutputLayout::add_auto(0x70).unwrap().0.addr(), 0x70);
    assert_eq!(Scene::attach_output_layout(0x80).unwrap().0.addr(), 0x80);
}
