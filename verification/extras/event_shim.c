/* Accessors for the fields of wlroots 0.19 objects that the compositor in
 * app/ reaches, compiled against the real headers so that the offsets are
 * right. Link with wayland-server, wlroots-0.19 and xkbcommon, built with
 * -DWLR_USE_UNSTABLE. */
#include <stdlib.h>
#include <wayland-server-core.h>
#include <wlr/backend.h>
#include <wlr/types/wlr_cursor.h>
#include <wlr/types/wlr_output.h>
#include <wlr/types/wlr_scene.h>
#include <wlr/types/wlr_xdg_shell.h>

struct wlr_output_state *wlz_output_state_new(void) {
	struct wlr_output_state *state = calloc(1, sizeof(*state));
	if (state) {
		wlr_output_state_init(state);
	}
	return state;
}

void wlz_output_state_set_enabled(struct wlr_output_state *state, bool enabled) {
	wlr_output_state_set_enabled(state, enabled);
}

void wlz_output_state_set_mode(struct wlr_output_state *state, struct wlr_output_mode *mode) {
	wlr_output_state_set_mode(state, mode);
}

void wlz_output_state_free(struct wlr_output_state *state) {
	wlr_output_state_finish(state);
	free(state);
}

struct wl_signal *wlz_backend_new_output(struct wlr_backend *backend) {
	return &backend->events.new_output;
}

struct wl_signal *wlz_xdg_shell_new_toplevel(struct wlr_xdg_shell *shell) {
	return &shell->events.new_toplevel;
}

struct wl_signal *wlz_xdg_shell_new_popup(struct wlr_xdg_shell *shell) {
	return &shell->events.new_popup;
}

struct wl_signal *wlz_cursor_event(struct wlr_cursor *cursor, int which) {
	switch (which) {
	case 0: return &cursor->events.motion;
	case 1: return &cursor->events.motion_absolute;
	case 2: return &cursor->events.button;
	case 3: return &cursor->events.axis;
	default: return &cursor->events.frame;
	}
}

struct wl_signal *wlz_output_event(struct wlr_output *output, int which) {
	switch (which) {
	case 0: return &output->events.frame;
	case 1: return &output->events.request_state;
	default: return &output->events.destroy;
	}
}

struct wl_signal *wlz_xdg_toplevel_event(struct wlr_xdg_toplevel *toplevel, int which) {
	switch (which) {
	case 0: return &toplevel->events.destroy;
	case 1: return &toplevel->events.request_move;
	case 2: return &toplevel->events.request_resize;
	case 3: return &toplevel->events.request_maximize;
	default: return &toplevel->events.request_fullscreen;
	}
}

struct wl_signal *wlz_surface_event(struct wlr_surface *surface, int which) {
	switch (which) {
	case 0: return &surface->events.map;
	case 1: return &surface->events.unmap;
	default: return &surface->events.commit;
	}
}

struct wl_signal *wlz_xdg_popup_destroy_event(struct wlr_xdg_popup *popup) {
	return &popup->events.destroy;
}

struct wlr_scene_tree *wlz_scene_tree(struct wlr_scene *scene) {
	return &scene->tree;
}

void wlz_scene_tree_set_data(struct wlr_scene_tree *tree, void *data) {
	tree->node.data = data;
}

void wlz_xdg_surface_set_data(struct wlr_xdg_surface *surface, void *data) {
	surface->data = data;
}

struct wlr_surface *wlz_xdg_surface_surface(struct wlr_xdg_surface *surface) {
	return surface->surface;
}

void *wlz_surface_data(struct wlr_surface *surface) {
	return surface->data;
}

struct wlr_xdg_surface *wlz_xdg_toplevel_base(struct wlr_xdg_toplevel *toplevel) {
	return toplevel->base;
}

struct wlr_surface *wlz_xdg_popup_parent(struct wlr_xdg_popup *popup) {
	return popup->parent;
}

struct wlr_xdg_surface *wlz_xdg_popup_base(struct wlr_xdg_popup *popup) {
	return popup->base;
}
