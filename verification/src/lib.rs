//! Prayer times for the desktop: which prayer comes next and how long until
//! it, whether the stored schedule still holds today and tomorrow, when to
//! warn, and what the main window does with what the user picks and the
//! network brings.
//!
//! - `prayer`: the day's record, the search for the next prayer, the
//!   validity of the schedule, the warning.
//! - `clock`: clock readings, and the keys `DD.MM.YYYY` of the days.
//! - `preferences`: what is kept between runs.
//! - `window`: the state of the main window and its steps.
//! - `networking`: what the schedule service lists, as maps from name to
//!   identifier.
//! - `current_locale`: the locale from the `LANG` variable.
//! - `string_map`, `order`, `text`: maps keyed by texts, the order of texts,
//!   digits.

pub mod clock;
pub mod current_locale;
pub mod networking;
pub mod order;
pub mod prayer;
pub mod preferences;
pub mod string_map;
pub mod text;
pub mod window;
