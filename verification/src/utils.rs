pub mod eds;
