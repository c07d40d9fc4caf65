/// Attribute Descriptor Record.
pub mod adr;
/// Attribute entries for global and rVariable attributes.
pub mod agredr;
/// Attribute entries for zVariable attributes.
pub mod azedr;
/// Compressed CDF Record.
pub mod ccr;
/// CDF Descriptor Record.
pub mod cdr;
/// Traits shared by records and the walk of a linked list of records.
pub mod collection;
/// Compressed Parameters Record.
pub mod cpr;
/// Compressed Variable Values Record.
pub mod cvvr;
/// Global Descriptor Record.
pub mod gdr;
/// rVariable Descriptor Record.
pub mod rvdr;
/// Unused Internal Records.
pub mod uir;
/// Variable Values Record.
pub mod vvr;
/// Variable Index Record.
pub mod vxr;
/// zVariable Descriptor Record.
pub mod zvdr;
