//! Utility operations on slices.
pub mod add_assign;
pub mod argminmax;
pub mod argreduce;
pub mod bitand_assign;
pub mod bitor_assign;
pub mod bitxor_assign;
pub mod differentiate;
pub mod div_assign;
pub mod find;
pub mod integrate;
pub mod magnitude;
pub mod mul_assign;
pub mod neg_assign;
pub mod not_assign;
pub mod permute;
pub mod rem_assign;
pub mod shift;
pub mod shl_assign;
pub mod shr_assign;
pub mod split;
pub mod spread;
pub mod sub_assign;
pub mod trim;
pub mod visit;

pub use add_assign::SliceAddAssign;
pub use argminmax::SliceArgMinMax;
pub use argreduce::SliceArgReduce;
pub use bitand_assign::SliceBitAndAssign;
pub use bitor_assign::SliceBitOrAssign;
pub use bitxor_assign::SliceBitXorAssign;
pub use differentiate::SliceDifferentiate;
pub use div_assign::SliceDivAssign;
pub use find::SliceFind;
pub use integrate::SliceIntegrate;
pub use magnitude::SlicePartialMagnitude;
pub use mul_assign::SliceMulAssign;
pub use neg_assign::SliceNegAssign;
pub use not_assign::SliceNotAssign;
pub use permute::SlicePermute;
pub use rem_assign::SliceRemAssign;
pub use shift::SliceShift;
pub use shl_assign::SliceShlAssign;
pub use shr_assign::SliceShrAssign;
pub use split::SliceSplit;
pub use spread::SliceSpread;
pub use sub_assign::SliceSubAssign;
pub use trim::SliceTrim;
pub use visit::SliceVisit;
