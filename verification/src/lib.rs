//! A bridge from a circom-style rank-one constraint system and its witness to
//! the constraint-synthesis interface of an arkworks proving backend.
//!
//! The crate holds the data model and every decision of the bridge: which wire
//! gets which value, which variable a wire becomes, in what order variables are
//! allocated and constraints enforced, how named inputs accumulate and how an
//! input document is read. The witness provider and the target constraint
//! system come in as functions that the caller hands over; reading files is
//! left to the caller.

pub mod circom;
pub mod index;

pub use circom::builder::CircomBuilder;
pub use circom::builder::CircomConfig;
pub use circom::circuit::CircomCircuit;
pub use circom::inputs::InputError;
pub use circom::inputs::Inputs;
pub use circom::r1cs::ConstraintVec;
pub use circom::r1cs::Constraints;
pub use circom::r1cs::R1CS;
pub use circom::synthesis::Synthesis;
pub use circom::synthesis::SynthesisAction;
pub use circom::translation::Terms;
pub use circom::translation::Triple;
pub use circom::translation::VariableHandle;
pub use index::NPIndex;
