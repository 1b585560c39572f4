pub mod apollonius_pair;
pub mod circle;
pub mod homothetic_centers;
pub mod homothetic_set;
pub mod inverse_pole_set;
pub mod point;
pub mod scene;
pub mod segment;
pub mod straightline;
