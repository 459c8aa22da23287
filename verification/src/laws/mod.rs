//! What holds of the library as a whole: properties that relate several
//! functions, or one function with itself.

pub mod words;
pub mod texts;
pub mod values;
pub mod comparison;
pub mod equality;
pub mod matching;

pub mod validation;
pub mod settings;
pub mod repository;
pub mod actions;
pub mod branches;
pub mod rulesets;
pub mod declarations;
pub mod plan;
pub mod planning;

pub mod bodies;
pub mod operations;
pub mod run;
pub mod telling;
