//! Activity and state-synchronisation engine of the Presto focus timer.
//!
//! The crate holds the rules of the timer's native backend as functions over
//! plain values: the debounce registry for global shortcuts, the state
//! machine of the idle monitor and the reading of the idle probe, the
//! settings defaults, the bounded daily history, the date rollover of the
//! current-day summary, the keyed user records and the tray projection.
//!
//! Every function states what it returns or changes in a contract over a
//! mathematical model of its data, and Verus proves the contract. The few
//! calls into other crates stand behind functions whose contracts are taken
//! on trust; each says so where it stands. Reading the clock, the files of
//! the store and the host runtime are left to the application.

pub mod clock;
pub mod debounce;
pub mod export;
pub mod history;
pub mod idle;
pub mod menu;
pub mod monitor;
pub mod records;
pub mod session;
pub mod settings;
pub mod shortcuts;
pub mod store;
pub mod text;
pub mod tray;
