pub mod basics;
pub mod boundary;
pub mod geodesics;
pub mod horocycle;
