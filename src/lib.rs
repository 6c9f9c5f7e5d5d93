//! Small verified routines: integer and bit arithmetic, and the logic of a
//! line-oriented text file workflow (writing known names, appending, reading
//! back as lines, and searching the lines for a substring).

pub mod basics;
pub mod lines;
pub mod search;
pub mod workflow;
