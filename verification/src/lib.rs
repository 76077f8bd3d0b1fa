pub mod anfa;
