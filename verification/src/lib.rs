//! The core of a text editor: buffers, windows, kill ring, undo, modes,
//! prompts, file merging and the host protocol around them.

pub mod buffer;
pub mod buffer_host;
pub mod buffer_laws;
pub mod buffer_switch_mode;
pub mod command_mode;
pub mod command_registry;
pub mod editing;
pub mod editing_laws;
pub mod editor;
pub mod file_laws;
pub mod file_watcher;
pub mod frontend;
pub mod gutter;
pub mod highlight_laws;
pub mod ids;
pub mod isearch_mode;
pub mod julia_calls;
pub mod julia_runtime;
pub mod kernel_laws;
pub mod keys;
pub mod kill_ring;
pub mod layout_laws;
pub mod menu_laws;
pub mod merge_laws;
pub mod mica_host;
pub mod mode;
pub mod mode_laws;
pub mod movement_laws;
pub mod native_io;
pub mod native_kernel;
pub mod native_services;
pub mod opening;
pub mod renderer;
pub mod rope;
pub mod scripted_mode;
pub mod script_laws;
pub mod search_laws;
pub mod selection_menu;
pub mod session;
pub mod slots;
pub mod stream_laws;
pub mod syntax;
pub mod text;
pub mod text_dict;
pub mod text_laws;
pub mod undo;
pub mod visiting;
pub mod watch_laws;
pub mod window;

pub use buffer::Buffer;
pub use editor::{Editor, Frame};
pub use gutter::{
    calculate_gutter_width, format_line_number, get_line_status, GutterConfig, GutterLine,
    LineStatus,
};
pub use ids::{BufferId, WindowId};
pub use window::Window;
