//! The public interface in one place.

pub use crate::circuit::{
    create_circuit, instance_bindings, Binding, InstanceColumn, Pass, RegexCircuit, RegionPasses,
    K, MAX_STRING_LEN, NUM_ADVICE, NUM_FIXED,
};
pub use crate::instance::{
    default_chains, derive_masked_instance, gen_masked_instance, mask_spans, InstanceError,
    MaskedInstance, SpanOverrun, ADDRESS, BRACKETED_ADDRESS, SENDER_FIELD,
};
pub use crate::lifecycle::{Action, Event, Halt, Lifecycle, Verification};
pub use crate::narrowing::{get_substr, ChainFault};
