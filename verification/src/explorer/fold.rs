pub mod fic;
