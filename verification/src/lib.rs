//! A minimal terminal-display engine: an immutable framebuffer with
//! row-wise iteration, the decision logic of a frame renderer and of a
//! key-event listener, and the cooperative-shutdown protocol that ties
//! the two service loops together. The terminal backend, the OS signal
//! surface and the worker threads live outside the library; everything
//! the engine decides or computes is verified here.

mod graphic;
mod keyboard;
mod listener;
mod renderer;
mod service;

pub use graphic::concat_rows;
pub use graphic::lemma_exhausted_is_terminal;
pub use graphic::lemma_iteration_counts;
pub use graphic::lemma_rows_reassemble;
pub use graphic::lemma_step_preserves_wf;
pub use graphic::valid_dimensions;
pub use graphic::DimensionError;
pub use graphic::Graphic;
pub use graphic::GraphicView;
pub use keyboard::Keyboard;
pub use listener::action_for;
pub use listener::lemma_forward_exactly_mapped;
pub use listener::listener_step;
pub use listener::KeyEvent;
pub use listener::ListenerAction;
pub use listener::PollOutcome;
pub use renderer::cell_of;
pub use renderer::drain_all;
pub use renderer::render_cells;
pub use renderer::renderer_step;
pub use renderer::repaint_of;
pub use renderer::Cell;
pub use renderer::RenderStep;
pub use service::admits_work;
pub use service::lemma_shutdown_within_one_tick;
pub use service::next_state;
pub use service::observe_shutdown;
pub use service::tick_admitted;
pub use service::ServiceState;
