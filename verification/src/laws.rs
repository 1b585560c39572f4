pub mod circles;
pub mod homothety;
pub mod incidence;
pub mod polarity;
pub mod radical;
