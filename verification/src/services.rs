pub mod calc;
