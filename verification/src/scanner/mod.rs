// Library scanning: incremental updates from file system changes.

pub mod watcher;
