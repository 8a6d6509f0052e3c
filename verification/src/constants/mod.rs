pub mod fallback;
