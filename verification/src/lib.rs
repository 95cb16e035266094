//! A search through the registry, and the menu and the screens from which it is run.
//!
//! A search is a `WorkerManager` that many workers share: `worker_manager` says what each of them
//! does to it, `pool` and `findings` what that comes to. The menu is a `StaticSelection`; `input`
//! says what the keyboard does to it. `renderer` and `menu` say what is shown, as plain values.
//!
//! What holds of the library as a whole are the proof functions whose names begin with `law_`.
//! Those in `search_operations` and `menu_operations` speak of the calls themselves: of what every
//! call of an operation gives, for all that it can be called with.

pub mod clock;
pub mod coverage;
pub mod ending;
pub mod findings;
pub mod input;
pub mod layout;
pub mod menu;
pub mod menu_laws;
pub mod menu_operations;
pub mod pool;
pub mod renderer;
pub mod roots;
pub mod screen;
pub mod screen_laws;
pub mod search_laws;
pub mod search_operations;
pub mod static_selection;
pub mod step_laws;
pub mod text;
pub mod text_laws;
pub mod text_set;
pub mod worker_manager;
pub mod worker_runtime;
