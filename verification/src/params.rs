//! The hyperparameters that the metadata of a GGUF file gives.

use crate::config::{Ratio, Single, QWEN3_VOCAB_SIZE};
use crate::error::ModelError;
use crate::metadata::{
    is_f32_field, is_u32_field, to_string_may_fail, value_text, value_u32, Field, Metadata,
};
use crate::text::{arch_key, arch_key_string};
use candle_core::quantized::gguf_file::Value;
use candle_core::Error;
use vstd::prelude::*;

verus! {

/// The bit pattern of 10000, the base of the rotary frequencies where the metadata names none.
pub const DEFAULT_FREQ_BASE_BITS: u32 = 0x461C4000;

/// What is wrong with a field.
pub ghost enum Fault {
    /// The key is not there.
    Missing(Seq<char>),
    /// The value is of another type.
    Invalid(Error),
}

/// Whether `error` reports `fault`.
pub open spec fn reports(error: ModelError, fault: Fault) -> bool {
    match fault {
        Fault::Missing(key) => error matches ModelError::MissingKey(k) && k@ == key,
        Fault::Invalid(e) => error == ModelError::Candle(e),
    }
}

/// The fault of a field that has to be there.
pub open spec fn required_fault<T>(field: Field<T>, key: Seq<char>) -> Option<Fault> {
    match field {
        Field::Missing => Some(Fault::Missing(key)),
        Field::Invalid(e) => Some(Fault::Invalid(e)),
        Field::Found(_) => None,
    }
}

/// The fault of a field that may be left out.
pub open spec fn optional_fault<T>(field: Field<T>) -> Option<Fault> {
    match field {
        Field::Invalid(e) => Some(Fault::Invalid(e)),
        _ => None,
    }
}

/// The first of two faults.
pub open spec fn first_fault(a: Option<Fault>, b: Option<Fault>) -> Option<Fault> {
    if a is Some {
        a
    } else {
        b
    }
}

/// Takes the value out of a field that has to be there.
pub fn required<T>(field: Field<T>, arch: &str, parameter: &str) -> (r: Result<T, ModelError>)
    ensures
        match required_fault(field, arch_key(arch@, parameter@)) {
            Some(fault) => r matches Err(e) && reports(e, fault),
            None => r matches Ok(v) && field == Field::Found(v),
        },
{
    match field {
        Field::Missing => Err(ModelError::MissingKey(arch_key_string(arch, parameter))),
        Field::Invalid(e) => Err(ModelError::Candle(e)),
        Field::Found(v) => Ok(v),
    }
}

/// Takes the value out of a field that may be left out.
pub fn optional<T>(field: Field<T>) -> (r: Result<Option<T>, ModelError>)
    ensures
        match field {
            Field::Missing => r == Ok::<Option<T>, ModelError>(None),
            Field::Invalid(e) => r == Err::<Option<T>, ModelError>(ModelError::Candle(e)),
            Field::Found(v) => r == Ok::<Option<T>, ModelError>(Some(v)),
        },
{
    match field {
        Field::Missing => Ok(None),
        Field::Invalid(e) => Err(ModelError::Candle(e)),
        Field::Found(v) => Ok(Some(v)),
    }
}

/// The shape of the decoder, field by field.
pub struct CoreFields {
    pub arch: String,
    pub head_count: Field<u32>,
    pub head_count_kv: Field<u32>,
    pub key_length: Field<u32>,
    pub embedding_length: Field<u32>,
    pub context_length: Field<u32>,
    pub block_count: Field<u32>,
    pub layer_norm_rms_epsilon: Field<Single>,
    pub freq_base: Field<Single>,
}

/// The reach of the rotary embedding, field by field.
pub struct RopeFields {
    pub original_context_length: Field<u32>,
    pub dimension_count: Field<u32>,
}

/// The shape of the decoder.
#[derive(Debug)]
pub struct CoreParams {
    pub arch: String,
    pub head_count: usize,
    pub head_count_kv: usize,
    pub head_dim: usize,
    pub embedding_length: usize,
    pub context_length: usize,
    pub block_count: usize,
    pub rms_norm_eps: Single,
    pub rope_freq_base: Single,
}

/// The reach of the rotary embedding.
#[derive(Clone, Copy, PartialEq, Eq, Structural, Debug)]
pub struct RopeParams {
    pub original_max_position_embeddings: Option<usize>,
    pub partial_rotary_factor: Option<Ratio>,
}

impl CoreFields {
    /// Whether the length of a head would be the quotient of a division by zero.
    pub open spec fn divides_by_zero(self) -> bool {
        &&& self.head_count == Field::Found(0u32)
        &&& self.head_count_kv is Found
        &&& self.embedding_length is Found
        &&& self.key_length is Missing
    }

    /// Tests whether the length of a head would be the quotient of a division by zero.
    pub fn check_division(&self) -> (by_zero: bool)
        ensures
            by_zero == self.divides_by_zero(),
    {
        match (&self.head_count, &self.head_count_kv, &self.embedding_length, &self.key_length) {
            (Field::Found(n), Field::Found(_), Field::Found(_), Field::Missing) => *n == 0,
            _ => false,
        }
    }

    /// What is wrong with the first field that is, in the order in which they are looked at.
    pub open spec fn fault(self) -> Option<Fault> {
        first_fault(
            required_fault(self.head_count, arch_key(self.arch@, "attention.head_count"@)),
            first_fault(
                required_fault(
                    self.head_count_kv,
                    arch_key(self.arch@, "attention.head_count_kv"@),
                ),
                first_fault(
                    required_fault(
                        self.embedding_length,
                        arch_key(self.arch@, "embedding_length"@),
                    ),
                    first_fault(
                        optional_fault(self.key_length),
                        first_fault(
                            required_fault(
                                self.context_length,
                                arch_key(self.arch@, "context_length"@),
                            ),
                            first_fault(
                                required_fault(
                                    self.block_count,
                                    arch_key(self.arch@, "block_count"@),
                                ),
                                required_fault(
                                    self.layer_norm_rms_epsilon,
                                    arch_key(self.arch@, "attention.layer_norm_rms_epsilon"@),
                                ),
                            ),
                        ),
                    ),
                ),
            ),
        )
    }

    /// The length of one attention head: what the metadata says, or an even share.
    pub open spec fn head_dim(self) -> int {
        match self.key_length {
            Field::Found(n) => n as int,
            _ => self.embedding_length->Found_0 as int / self.head_count->Found_0 as int,
        }
    }

    /// Whether `p` is what these fields say.
    pub open spec fn give(self, p: CoreParams) -> bool {
        &&& p.arch == self.arch
        &&& self.head_count == Field::Found(p.head_count as u32) && p.head_count <= u32::MAX
        &&& self.head_count_kv == Field::Found(p.head_count_kv as u32) && p.head_count_kv
            <= u32::MAX
        &&& self.embedding_length == Field::Found(p.embedding_length as u32) && p.embedding_length
            <= u32::MAX
        &&& self.context_length == Field::Found(p.context_length as u32) && p.context_length
            <= u32::MAX
        &&& self.block_count == Field::Found(p.block_count as u32) && p.block_count <= u32::MAX
        &&& self.layer_norm_rms_epsilon == Field::Found(p.rms_norm_eps)
        &&& p.head_dim == self.head_dim()
        &&& p.rope_freq_base == match self.freq_base {
            Field::Found(x) => x,
            _ => Single { bits: DEFAULT_FREQ_BASE_BITS },
        }
    }

    /// Puts the fields together. A head takes the length that the metadata gives it, or an even
    /// share of the embedding; a base of the rotary frequencies that is missing or no float is
    /// taken to be the default.
    pub fn resolve(self) -> (r: Result<CoreParams, ModelError>)
        requires
            !self.divides_by_zero(),
        ensures
            match self.fault() {
                Some(fault) => r matches Err(e) && reports(e, fault),
                None => r matches Ok(p) && self.give(p),
            },
    {
        let arch = self.arch;
        let head_count = match required(self.head_count, arch.as_str(), "attention.head_count") {
            Ok(n) => n as usize,
            Err(e) => return Err(e),
        };
        let head_count_kv = match required(
            self.head_count_kv,
            arch.as_str(),
            "attention.head_count_kv",
        ) {
            Ok(n) => n as usize,
            Err(e) => return Err(e),
        };
        let embedding_length = match required(
            self.embedding_length,
            arch.as_str(),
            "embedding_length",
        ) {
            Ok(n) => n as usize,
            Err(e) => return Err(e),
        };
        let head_dim = match optional(self.key_length) {
            Ok(Some(n)) => n as usize,
            Ok(None) => embedding_length / head_count,
            Err(e) => return Err(e),
        };
        let context_length = match required(self.context_length, arch.as_str(), "context_length") {
            Ok(n) => n as usize,
            Err(e) => return Err(e),
        };
        let block_count = match required(self.block_count, arch.as_str(), "block_count") {
            Ok(n) => n as usize,
            Err(e) => return Err(e),
        };
        let rms_norm_eps = match required(
            self.layer_norm_rms_epsilon,
            arch.as_str(),
            "attention.layer_norm_rms_epsilon",
        ) {
            Ok(x) => x,
            Err(e) => return Err(e),
        };
        let rope_freq_base = match self.freq_base {
            Field::Found(x) => x,
            _ => Single { bits: DEFAULT_FREQ_BASE_BITS },
        };
        Ok(
            CoreParams {
                arch,
                head_count,
                head_count_kv,
                head_dim,
                embedding_length,
                context_length,
                block_count,
                rms_norm_eps,
                rope_freq_base,
            },
        )
    }
}

impl RopeFields {
    /// What is wrong with the first field that is.
    pub open spec fn fault(self) -> Option<Fault> {
        first_fault(
            optional_fault(self.original_context_length),
            optional_fault(self.dimension_count),
        )
    }

    /// What these fields say of heads of length `head_dim`.
    pub open spec fn give(self, head_dim: usize) -> RopeParams {
        RopeParams {
            original_max_position_embeddings: match self.original_context_length {
                Field::Found(n) => Some(n as usize),
                _ => None,
            },
            partial_rotary_factor: match self.dimension_count {
                Field::Found(n) if n != head_dim => Some(Ratio { num: n as usize, den: head_dim }),
                _ => None,
            },
        }
    }

    /// Puts the fields together for heads of length `head_dim`. Only where fewer, or more,
    /// dimensions than a head has are rotated is there a factor.
    pub fn resolve(self, head_dim: usize) -> (r: Result<RopeParams, ModelError>)
        ensures
            match self.fault() {
                Some(fault) => r matches Err(e) && reports(e, fault),
                None => r == Ok::<RopeParams, ModelError>(self.give(head_dim)),
            },
    {
        let original_max_position_embeddings = match optional(self.original_context_length) {
            Ok(Some(n)) => Some(n as usize),
            Ok(None) => None,
            Err(e) => return Err(e),
        };
        let partial_rotary_factor = match optional(self.dimension_count) {
            Ok(Some(n)) => {
                if n as usize != head_dim {
                    Some(Ratio { num: n as usize, den: head_dim })
                } else {
                    None
                }
            },
            Ok(None) => None,
            Err(e) => return Err(e),
        };
        Ok(RopeParams { original_max_position_embeddings, partial_rotary_factor })
    }
}

/// The size of the vocabulary in a model whose embedding table has `rows` rows.
pub open spec fn true_vocab(arch: Seq<char>, rows: nat) -> nat {
    if arch == "qwen3"@ {
        QWEN3_VOCAB_SIZE as nat
    } else {
        rows
    }
}

/// The size of the vocabulary in a model whose embedding table has `rows` rows. Quantization pads
/// the table to whole blocks, and nothing in the file tells by how much: of Qwen3 the size is
/// known, of other architectures the rows are counted.
pub fn true_vocab_size(arch: &String, rows: usize) -> (size: usize)
    ensures
        size == true_vocab(arch@, rows as nat),
{
    let qwen3 = "qwen3".to_owned();
    if *arch == qwen3 {
        QWEN3_VOCAB_SIZE
    } else {
        rows
    }
}

/// The key under which the metadata names the architecture.
pub open spec fn arch_entry() -> Seq<char> {
    "general.architecture"@
}

/// Whether the metadata names its architecture, and names it `arch`.
pub open spec fn names_arch(md: Map<Seq<char>, Value>, arch: Seq<char>) -> bool {
    md.contains_key(arch_entry()) && value_text(md[arch_entry()]) == Some(arch)
}

/// Whether `core` is what the metadata of the architecture holds.
pub open spec fn are_core_fields(md: Map<Seq<char>, Value>, core: CoreFields) -> bool {
    let arch = core.arch@;
    &&& names_arch(md, arch)
    &&& is_u32_field(md, arch_key(arch, "attention.head_count"@), core.head_count)
    &&& is_u32_field(md, arch_key(arch, "attention.head_count_kv"@), core.head_count_kv)
    &&& is_u32_field(md, arch_key(arch, "attention.key_length"@), core.key_length)
    &&& is_u32_field(md, arch_key(arch, "embedding_length"@), core.embedding_length)
    &&& is_u32_field(md, arch_key(arch, "context_length"@), core.context_length)
    &&& is_u32_field(md, arch_key(arch, "block_count"@), core.block_count)
    &&& is_f32_field(
        md,
        arch_key(arch, "attention.layer_norm_rms_epsilon"@),
        core.layer_norm_rms_epsilon,
    )
    &&& is_f32_field(md, arch_key(arch, "rope.freq_base"@), core.freq_base)
}

/// Whether `rope` is what the metadata holds for the architecture `arch`.
pub open spec fn are_rope_fields(
    md: Map<Seq<char>, Value>,
    arch: Seq<char>,
    rope: RopeFields,
) -> bool {
    &&& is_u32_field(
        md,
        arch_key(arch, "rope.scaling.original_context_length"@),
        rope.original_context_length,
    )
    &&& is_u32_field(md, arch_key(arch, "rope.dimension_count"@), rope.dimension_count)
}

/// The 32-bit number under `key`, where there is one.
pub open spec fn u32_at(md: Map<Seq<char>, Value>, key: Seq<char>) -> Option<u32> {
    if md.contains_key(key) {
        value_u32(md[key])
    } else {
        None
    }
}

/// Whether the metadata asks for a division by zero: no head, and no length of a head.
pub open spec fn asks_to_divide_by_zero(md: Map<Seq<char>, Value>) -> bool {
    exists|arch: Seq<char>| #[trigger]
        names_arch(md, arch) && {
            &&& u32_at(md, arch_key(arch, "attention.head_count"@)) == Some(0u32)
            &&& u32_at(md, arch_key(arch, "attention.head_count_kv"@)) is Some
            &&& u32_at(md, arch_key(arch, "embedding_length"@)) is Some
            &&& !md.contains_key(arch_key(arch, "attention.key_length"@))
        }
}

/// Whether reading the architecture, and what the metadata holds for it, ends in `r`.
pub open spec fn fields_end(
    md: Map<Seq<char>, Value>,
    r: Result<(CoreFields, RopeFields), ModelError>,
) -> bool {
    match r {
        Ok((core, rope)) => are_core_fields(md, core) && are_rope_fields(md, core.arch@, rope),
        Err(ModelError::MissingKey(key)) => key@ == arch_entry() && !md.contains_key(arch_entry()),
        Err(ModelError::Candle(e)) => {
            &&& md.contains_key(arch_entry())
            &&& value_text(md[arch_entry()]) is None
            &&& to_string_may_fail(md[arch_entry()], e)
        },
    }
}

/// Reads the architecture, and what the metadata holds for it.
pub fn read_fields(md: &Metadata) -> (r: Result<(CoreFields, RopeFields), ModelError>)
    ensures
        fields_end(md@, r),
{
    let arch = match md.get("general.architecture") {
        None => return Err(ModelError::MissingKey("general.architecture".to_owned())),
        Some(v) => match v.to_string() {
            Ok(s) => s.clone(),
            Err(e) => return Err(ModelError::Candle(e)),
        },
    };
    let a = arch.as_str();
    let head_count = md.u32_field(arch_key_string(a, "attention.head_count").as_str());
    let head_count_kv = md.u32_field(arch_key_string(a, "attention.head_count_kv").as_str());
    let key_length = md.u32_field(arch_key_string(a, "attention.key_length").as_str());
    let embedding_length = md.u32_field(arch_key_string(a, "embedding_length").as_str());
    let context_length = md.u32_field(arch_key_string(a, "context_length").as_str());
    let block_count = md.u32_field(arch_key_string(a, "block_count").as_str());
    let layer_norm_rms_epsilon = md.f32_field(
        arch_key_string(a, "attention.layer_norm_rms_epsilon").as_str(),
    );
    let freq_base = md.f32_field(arch_key_string(a, "rope.freq_base").as_str());
    let original_context_length = md.u32_field(
        arch_key_string(a, "rope.scaling.original_context_length").as_str(),
    );
    let dimension_count = md.u32_field(arch_key_string(a, "rope.dimension_count").as_str());
    Ok(
        (
            CoreFields {
                arch,
                head_count,
                head_count_kv,
                key_length,
                embedding_length,
                context_length,
                block_count,
                layer_norm_rms_epsilon,
                freq_base,
            },
            RopeFields { original_context_length, dimension_count },
        ),
    )
}

} // verus!
