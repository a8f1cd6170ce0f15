use vstd::prelude::*;

verus! {

/// One dataset row: fourteen numeric feature fields followed by one
/// binary label field, in a fixed order that the codec must preserve.
///
/// Integer-coded categorical fields are `u32`.  Real-valued fields are
/// carried as their 8-byte bit patterns (`u64`) so that every field is a
/// plain integer to the codec and the transfer layer; the numeric
/// pipeline at the process boundary interprets those bit patterns.
#[derive(Clone, Copy, PartialEq, Eq, Structural, Debug)]
pub struct Record {
    pub male: u32,
    pub age: u32,
    pub currentSmoker: u32,
    pub cigsPerDay: u64,
    pub BPMeds: u64,
    pub prevalentStroke: u32,
    pub prevalentHyp: u32,
    pub diabetes: u32,
    pub totChol: u64,
    pub sysBP: u64,
    pub diaBP: u64,
    pub BMI: u64,
    pub heartRate: u64,
    pub glucose: u64,
    pub TenYearCHD: u32,
}

/// Number of fields in one record: fourteen features and the label.
pub const FIELD_COUNT: usize = 15;

/// Number of feature fields (the label column excluded).
pub const FEATURE_COUNT: usize = 14;

} // verus!
