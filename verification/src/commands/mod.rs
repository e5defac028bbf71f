// Application commands whose logic does not depend on the window toolkit.

pub mod backup;
