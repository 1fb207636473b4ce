//! The parts of a TensorFlow Lite model that the compiler reads, decoded from
//! the FlatBuffer file: subgraph 0 with its tensors, operators, inputs and
//! outputs, the operator codes, and the data buffers.

use vstd::prelude::*;

use crate::flatbuffer::{
    bytes_of, field, field_pos, i64s, le_i64, u32s, field_target, field_target_of, follow, i32s, in_bounds, le_i32, le_u32,
    read_byte_vector, read_i32, read_i32_vector, read_i64_vector, read_offset, read_u32,
    read_u32_vector, read_u8, table_in, table_of, vector_fits, vector_len,
};

verus! {

/// Why a model cannot be compiled.
#[derive(Clone, Copy, Debug, PartialEq, Eq, Structural)]
pub enum CompileError {
    /// The file is not a readable TensorFlow Lite FlatBuffer.
    InvalidModel,
    /// An operator whose builtin code has no kernel.
    UnsupportedOperator(i32),
    /// A tensor whose element type is neither INT8 nor UINT8.
    UnsupportedTensorType(u8),
    /// A tensor whose rank is neither 2 nor 4 (after promoting rank 1).
    UnsupportedRank(usize),
    /// A fused activation other than NONE, RELU and RELU6.
    UnsupportedActivation(u8),
    /// A padding other than SAME and VALID.
    UnsupportedPadding(u8),
    /// Operators on elements of another type than the model's input.
    MixedTypes,
    /// A paging capacity of zero.
    InvalidCapacity,
}

/// A tensor of the model's tensor table. Scales are IEEE-754 single-precision
/// bit patterns as stored in the file.
pub struct TensorInfo {
    pub shape: Vec<i32>,
    pub tensor_type: u8,
    pub buffer: u32,
    pub scale: Vec<u32>,
    pub zero_point: Vec<i64>,
}

/// An operator of subgraph 0, with the position of its options table.
pub struct OperatorInfo {
    pub opcode_index: u32,
    pub inputs: Vec<i32>,
    pub outputs: Vec<i32>,
    pub options_type: u8,
    pub options: Option<usize>,
}

/// Subgraph 0 of a model, with the model's operator codes and buffers.
pub struct ModelInfo {
    pub operator_codes: Vec<i32>,
    pub tensors: Vec<TensorInfo>,
    pub inputs: Vec<i32>,
    pub outputs: Vec<i32>,
    pub operators: Vec<OperatorInfo>,
    pub buffers: Vec<Vec<u8>>,
}

/// What a tensor table holds.
pub struct TensorFacts {
    pub shape: Seq<i32>,
    pub tensor_type: u8,
    pub buffer: u32,
    pub scale: Seq<u32>,
    pub zero_point: Seq<i64>,
}

/// What an operator table holds.
pub struct OperatorFacts {
    pub opcode_index: u32,
    pub inputs: Seq<i32>,
    pub outputs: Seq<i32>,
    pub options_type: u8,
    pub options: Option<usize>,
}

/// What the compiler reads of a model.
pub struct ModelFacts {
    pub operator_codes: Seq<i32>,
    pub tensors: Seq<TensorFacts>,
    pub inputs: Seq<i32>,
    pub outputs: Seq<i32>,
    pub operators: Seq<OperatorFacts>,
    pub buffers: Seq<Seq<u8>>,
}

impl View for TensorInfo {
    type V = TensorFacts;

    open spec fn view(&self) -> TensorFacts {
        TensorFacts {
            shape: self.shape@,
            tensor_type: self.tensor_type,
            buffer: self.buffer,
            scale: self.scale@,
            zero_point: self.zero_point@,
        }
    }
}

impl View for OperatorInfo {
    type V = OperatorFacts;

    open spec fn view(&self) -> OperatorFacts {
        OperatorFacts {
            opcode_index: self.opcode_index,
            inputs: self.inputs@,
            outputs: self.outputs@,
            options_type: self.options_type,
            options: self.options,
        }
    }
}

impl View for ModelInfo {
    type V = ModelFacts;

    open spec fn view(&self) -> ModelFacts {
        ModelFacts {
            operator_codes: self.operator_codes@,
            tensors: self.tensors@.map_values(|t: TensorInfo| t@),
            inputs: self.inputs@,
            outputs: self.outputs@,
            operators: self.operators@.map_values(|o: OperatorInfo| o@),
            buffers: self.buffers@.map_values(|d: Vec<u8>| d@),
        }
    }
}

/// The `i32` vector at `pos`.
pub open spec fn i32_seq(b: Seq<u8>, pos: int) -> Seq<i32> {
    Seq::new(le_u32(b, pos) as nat, |i: int| le_i32(b, pos + 4 + 4 * i) as i32)
}

/// The `u32` vector at `pos`.
pub open spec fn u32_seq(b: Seq<u8>, pos: int) -> Seq<u32> {
    Seq::new(le_u32(b, pos) as nat, |i: int| le_u32(b, pos + 4 + 4 * i) as u32)
}

/// The `i64` vector at `pos`.
pub open spec fn i64_seq(b: Seq<u8>, pos: int) -> Seq<i64> {
    Seq::new(le_u32(b, pos) as nat, |i: int| le_i64(b, pos + 4 + 8 * i) as i64)
}

/// The byte field `slot`, or `default` when it is absent.
pub open spec fn u8_field(b: Seq<u8>, table: int, slot: int, default: u8) -> u8 {
    match field_pos(b, table, slot) {
        Some(p) => b[p],
        None => default,
    }
}

/// The `u32` field `slot`, or `default` when it is absent.
pub open spec fn u32_field(b: Seq<u8>, table: int, slot: int, default: u32) -> u32 {
    match field_pos(b, table, slot) {
        Some(p) => le_u32(b, p) as u32,
        None => default,
    }
}

/// The `i32` field `slot`, or `default` when it is absent.
pub open spec fn i32_field(b: Seq<u8>, table: int, slot: int, default: i32) -> i32 {
    match field_pos(b, table, slot) {
        Some(p) => le_i32(b, p) as i32,
        None => default,
    }
}

/// The `i32` vector that field `slot` refers to, empty when it is absent.
pub open spec fn i32_vector_field(b: Seq<u8>, table: int, slot: int) -> Seq<i32> {
    match field_target(b, table, slot) {
        Some(v) => i32_seq(b, v),
        None => Seq::empty(),
    }
}

/// What the tensor table at `t` holds; absent quantization parameters give
/// empty scales and zero points.
pub open spec fn tensor_facts(b: Seq<u8>, t: int) -> TensorFacts {
    TensorFacts {
        shape: i32_vector_field(b, t, 0),
        tensor_type: u8_field(b, t, 1, 0),
        buffer: u32_field(b, t, 2, 0),
        scale: match field_target(b, t, 4) {
            Some(q) => match field_target(b, q, 2) {
                Some(v) => u32_seq(b, v),
                None => Seq::empty(),
            },
            None => Seq::empty(),
        },
        zero_point: match field_target(b, t, 4) {
            Some(q) => match field_target(b, q, 3) {
                Some(v) => i64_seq(b, v),
                None => Seq::empty(),
            },
            None => Seq::empty(),
        },
    }
}

/// What the operator table at `t` holds.
pub open spec fn operator_facts(b: Seq<u8>, t: int) -> OperatorFacts {
    OperatorFacts {
        opcode_index: u32_field(b, t, 0, 0),
        inputs: i32_vector_field(b, t, 1),
        outputs: i32_vector_field(b, t, 2),
        options_type: u8_field(b, t, 3, 0),
        options: match field_target(b, t, 4) {
            Some(v) => Some(v as usize),
            None => None,
        },
    }
}

/// The builtin code of the operator-code table at `t`: its deprecated
/// one-byte field, sign-extended.
pub open spec fn code_of(b: Seq<u8>, t: int) -> i32 {
    let byte = u8_field(b, t, 0, 0);
    if byte >= 128 {
        (byte - 256) as i32
    } else {
        byte as i32
    }
}

/// The data of the buffer table at `t`, empty when it has none.
pub open spec fn buffer_data(b: Seq<u8>, t: int) -> Seq<u8> {
    match field_target(b, t, 0) {
        Some(v) => bytes_of(b, v),
        None => Seq::empty(),
    }
}

/// What the compiler reads of the model in `b`: the operator codes, the
/// buffers, and subgraph 0's tensors, inputs, outputs and operators.
#[verifier::opaque]
pub open spec fn model_facts(b: Seq<u8>) -> ModelFacts {
    let root = model_root(b).unwrap();
    let sg = first_subgraph(b).unwrap();
    let codes = field_target(b, root, 1).unwrap();
    let buffers = field_target(b, root, 4).unwrap();
    let tensors = field_target(b, sg, 0).unwrap();
    let operators = field_target(b, sg, 3).unwrap();
    ModelFacts {
        operator_codes: Seq::new(le_u32(b, codes) as nat, |i: int| code_of(b, table_in(b, codes, i).unwrap())),
        tensors: Seq::new(le_u32(b, tensors) as nat, |i: int| tensor_facts(b, table_in(b, tensors, i).unwrap())),
        inputs: i32_vector_field(b, sg, 1),
        outputs: i32_vector_field(b, sg, 2),
        operators: Seq::new(
            le_u32(b, operators) as nat,
            |i: int| operator_facts(b, table_in(b, operators, i).unwrap()),
        ),
        buffers: Seq::new(le_u32(b, buffers) as nat, |i: int| buffer_data(b, table_in(b, buffers, i).unwrap())),
    }
}

proof fn lemma_i32_seq(v: Seq<i32>, b: Seq<u8>, pos: int)
    requires
        v.len() == i32s(b, pos).len(),
        forall|i: int| 0 <= i < v.len() ==> v[i] == #[trigger] i32s(b, pos)[i],
    ensures
        v == i32_seq(b, pos),
{
    assert forall|i: int| 0 <= i < v.len() implies v[i] == i32_seq(b, pos)[i] by {
        assert(v[i] == i32s(b, pos)[i]);
        let x = le_i32(b, pos + 4 + 4 * i);
        assert(v[i] == x);
        assert(x as i32 == v[i]);
    }
    assert(v =~= i32_seq(b, pos));
}

proof fn lemma_u32_seq(v: Seq<u32>, b: Seq<u8>, pos: int)
    requires
        v.len() == u32s(b, pos).len(),
        forall|i: int| 0 <= i < v.len() ==> v[i] == #[trigger] u32s(b, pos)[i],
    ensures
        v == u32_seq(b, pos),
{
    assert forall|i: int| 0 <= i < v.len() implies v[i] == u32_seq(b, pos)[i] by {
        assert(v[i] == u32s(b, pos)[i]);
        let x = le_u32(b, pos + 4 + 4 * i);
        assert(v[i] == x);
        assert(x as u32 == v[i]);
    }
    assert(v =~= u32_seq(b, pos));
}

proof fn lemma_i64_seq(v: Seq<i64>, b: Seq<u8>, pos: int)
    requires
        v.len() == i64s(b, pos).len(),
        forall|i: int| 0 <= i < v.len() ==> v[i] == #[trigger] i64s(b, pos)[i],
    ensures
        v == i64_seq(b, pos),
{
    assert forall|i: int| 0 <= i < v.len() implies v[i] == i64_seq(b, pos)[i] by {
        assert(v[i] == i64s(b, pos)[i]);
        let x = le_i64(b, pos + 4 + 8 * i);
        assert(v[i] == x);
        assert(x as i64 == v[i]);
    }
    assert(v =~= i64_seq(b, pos));
}

proof fn lemma_decoded_facts(
    b: Seq<u8>,
    m: &ModelInfo,
    root: int,
    sg: int,
    codes: int,
    buffers: int,
    tensors: int,
    operators: int,
)
    requires
        model_root(b) == Some(root),
        first_subgraph(b) == Some(sg),
        field_target(b, root, 1) == Some(codes),
        field_target(b, root, 4) == Some(buffers),
        field_target(b, sg, 0) == Some(tensors),
        field_target(b, sg, 3) == Some(operators),
        m.operator_codes@.len() == le_u32(b, codes),
        forall|i: int|
            0 <= i < m.operator_codes@.len() ==> m.operator_codes@[i] == #[trigger] code_of(
                b,
                table_in(b, codes, i).unwrap(),
            ),
        m.tensors@.len() == le_u32(b, tensors),
        forall|i: int|
            0 <= i < m.tensors@.len() ==> (#[trigger] m.tensors@[i])@ == tensor_facts(
                b,
                table_in(b, tensors, i).unwrap(),
            ),
        m.operators@.len() == le_u32(b, operators),
        forall|i: int|
            0 <= i < m.operators@.len() ==> (#[trigger] m.operators@[i])@ == operator_facts(
                b,
                table_in(b, operators, i).unwrap(),
            ),
        m.buffers@.len() == le_u32(b, buffers),
        forall|i: int|
            0 <= i < m.buffers@.len() ==> (#[trigger] m.buffers@[i])@ == buffer_data(
                b,
                table_in(b, buffers, i).unwrap(),
            ),
        m.inputs@ == i32_vector_field(b, sg, 1),
        m.outputs@ == i32_vector_field(b, sg, 2),
    ensures
        m@ == model_facts(b),
{
    reveal(model_facts);
    let f = model_facts(b);
    assert(m@.operator_codes =~= f.operator_codes);
    assert(m@.tensors =~= f.tensors);
    assert(m@.operators =~= f.operators);
    assert(m@.buffers =~= f.buffers);
}

/// The scalar field `slot` of `size` bytes is absent or lies inside `b`.
pub open spec fn scalar_fits(b: Seq<u8>, table: int, slot: int, size: int) -> bool {
    match field_pos(b, table, slot) {
        Some(p) => in_bounds(b, p, size),
        None => true,
    }
}

/// Field `slot` refers to a vector of `size`-byte elements inside `b`.
pub open spec fn has_vector(b: Seq<u8>, table: int, slot: int, size: int) -> bool {
    match field_target(b, table, slot) {
        Some(v) => vector_fits(b, v, size),
        None => false,
    }
}

/// Field `slot` is absent or refers to a vector of `size`-byte elements
/// inside `b`.
pub open spec fn optional_vector(b: Seq<u8>, table: int, slot: int, size: int) -> bool {
    match field_target(b, table, slot) {
        Some(v) => vector_fits(b, v, size),
        None => true,
    }
}

/// The tensor table at `t` can be read: its shape, type and buffer index, and
/// the scales and zero points of its quantization parameters where present.
pub open spec fn tensor_fits(b: Seq<u8>, t: int) -> bool {
    &&& has_vector(b, t, 0, 4)
    &&& scalar_fits(b, t, 1, 1)
    &&& scalar_fits(b, t, 2, 4)
    &&& match field_target(b, t, 4) {
        Some(q) => optional_vector(b, q, 2, 4) && optional_vector(b, q, 3, 8),
        None => true,
    }
}

/// The operator table at `t` can be read: its opcode index, inputs, outputs
/// and options type.
pub open spec fn operator_fits(b: Seq<u8>, t: int) -> bool {
    &&& scalar_fits(b, t, 0, 4)
    &&& has_vector(b, t, 1, 4)
    &&& has_vector(b, t, 2, 4)
    &&& scalar_fits(b, t, 3, 1)
}

/// Every table of the vector of tables at `pos` can be read as an operator
/// code.
pub open spec fn codes_fit(b: Seq<u8>, pos: int) -> bool {
    &&& vector_fits(b, pos, 4)
    &&& forall|i: int|
        0 <= i < le_u32(b, pos) ==> (#[trigger] table_in(b, pos, i)) is Some && scalar_fits(
            b,
            table_in(b, pos, i).unwrap(),
            0,
            1,
        )
}

/// Every table of the vector of tables at `pos` can be read as a tensor.
pub open spec fn tensors_fit(b: Seq<u8>, pos: int) -> bool {
    &&& vector_fits(b, pos, 4)
    &&& forall|i: int|
        0 <= i < le_u32(b, pos) ==> (#[trigger] table_in(b, pos, i)) is Some && tensor_fits(
            b,
            table_in(b, pos, i).unwrap(),
        )
}

/// Every table of the vector of tables at `pos` can be read as an operator.
pub open spec fn operators_fit(b: Seq<u8>, pos: int) -> bool {
    &&& vector_fits(b, pos, 4)
    &&& forall|i: int|
        0 <= i < le_u32(b, pos) ==> (#[trigger] table_in(b, pos, i)) is Some && operator_fits(
            b,
            table_in(b, pos, i).unwrap(),
        )
}

/// Every table of the vector of tables at `pos` can be read as a buffer.
pub open spec fn buffers_fit(b: Seq<u8>, pos: int) -> bool {
    &&& vector_fits(b, pos, 4)
    &&& forall|i: int|
        0 <= i < le_u32(b, pos) ==> (#[trigger] table_in(b, pos, i)) is Some && optional_vector(
            b,
            table_in(b, pos, i).unwrap(),
            0,
            1,
        )
}

/// `b` holds a model whose parts that the compiler reads can be read: the
/// operator codes, the buffers, and subgraph 0 with its tensors, inputs,
/// outputs and operators.
pub open spec fn model_fits(b: Seq<u8>) -> bool {
    match model_root(b) {
        Some(root) => match (field_target(b, root, 2), first_subgraph(b)) {
            (Some(_), Some(sg)) => {
                &&& field_target(b, root, 1) matches Some(c) && codes_fit(b, c)
                &&& field_target(b, root, 4) matches Some(v) && buffers_fit(b, v)
                &&& field_target(b, sg, 0) matches Some(v) && tensors_fit(b, v)
                &&& has_vector(b, sg, 1, 4)
                &&& has_vector(b, sg, 2, 4)
                &&& field_target(b, sg, 3) matches Some(v) && operators_fit(b, v)
            },
            _ => false,
        },
        None => false,
    }
}

/// Reads a byte field, or `default` when it is absent.
pub fn field_u8(b: &[u8], table: usize, slot: usize, default: u8) -> (r: Option<u8>)
    requires
        slot < 1000,
    ensures
        r is Some <==> scalar_fits(b@, table as int, slot as int, 1),
        r matches Some(v) ==> match field_pos(b@, table as int, slot as int) {
            Some(p) => in_bounds(b@, p, 1) && v == b@[p],
            None => v == default,
        },
{
    match field(b, table, slot) {
        Some(p) => read_u8(b, p),
        None => Some(default),
    }
}

/// Reads a `u32` field, or `default` when it is absent.
pub fn field_u32(b: &[u8], table: usize, slot: usize, default: u32) -> (r: Option<u32>)
    requires
        slot < 1000,
    ensures
        r is Some <==> scalar_fits(b@, table as int, slot as int, 4),
        r matches Some(v) ==> match field_pos(b@, table as int, slot as int) {
            Some(p) => in_bounds(b@, p, 4) && v == le_u32(b@, p),
            None => v == default,
        },
{
    match field(b, table, slot) {
        Some(p) => read_u32(b, p),
        None => Some(default),
    }
}

/// Reads an `i32` field, or `default` when it is absent.
pub fn field_i32(b: &[u8], table: usize, slot: usize, default: i32) -> (r: Option<i32>)
    requires
        slot < 1000,
    ensures
        r is Some <==> scalar_fits(b@, table as int, slot as int, 4),
        r matches Some(v) ==> match field_pos(b@, table as int, slot as int) {
            Some(p) => in_bounds(b@, p, 4) && v == le_i32(b@, p),
            None => v == default,
        },
{
    match field(b, table, slot) {
        Some(p) => read_i32(b, p),
        None => Some(default),
    }
}

/// The root table of the model.
pub open spec fn model_root(b: Seq<u8>) -> Option<int> {
    follow(b, 0)
}

/// The first subgraph of the model.
pub open spec fn first_subgraph(b: Seq<u8>) -> Option<int> {
    match model_root(b) {
        Some(root) => match field_target(b, root, 2) {
            Some(v) => if vector_fits(b, v, 4) && le_u32(b, v) >= 1 {
                table_in(b, v, 0)
            } else {
                None
            },
            None => None,
        },
        None => None,
    }
}

/// The vector in field `slot` of the first subgraph: tensors (0), inputs (1),
/// outputs (2), operators (3).
pub open spec fn subgraph_vector(b: Seq<u8>, slot: int) -> Option<int> {
    match first_subgraph(b) {
        Some(s) => field_target(b, s, slot),
        None => None,
    }
}

/// Decodes the tensor table at `table`. A tensor without quantization
/// parameters gets empty scales and zero points.
pub fn decode_tensor(b: &[u8], table: usize) -> (r: Result<TensorInfo, CompileError>)
    ensures
        r is Ok <==> tensor_fits(b@, table as int),
        r matches Ok(t) ==> t@ == tensor_facts(b@, table as int),
        r matches Ok(t) ==> (field_target(b@, table as int, 0) matches Some(v) && t.shape@.len()
            == i32s(b@, v).len() && forall|i: int|
            0 <= i < t.shape@.len() ==> t.shape@[i] == #[trigger] i32s(b@, v)[i]),
        r matches Err(e) ==> e == CompileError::InvalidModel,
{
    let shape_pos = match field_target_of(b, table, 0) {
        Some(p) => p,
        None => return Err(CompileError::InvalidModel),
    };
    let shape = match read_i32_vector(b, shape_pos) {
        Some(v) => v,
        None => return Err(CompileError::InvalidModel),
    };
    proof {
        lemma_i32_seq(shape@, b@, shape_pos as int);
    }
    let tensor_type = match field_u8(b, table, 1, 0) {
        Some(v) => v,
        None => return Err(CompileError::InvalidModel),
    };
    let buffer = match field_u32(b, table, 2, 0) {
        Some(v) => v,
        None => return Err(CompileError::InvalidModel),
    };
    let mut scale: Vec<u32> = Vec::new();
    let mut zero_point: Vec<i64> = Vec::new();
    if let Some(q) = field_target_of(b, table, 4) {
        if let Some(p) = field_target_of(b, q, 2) {
            scale = match read_u32_vector(b, p) {
                Some(v) => v,
                None => return Err(CompileError::InvalidModel),
            };
            proof {
                lemma_u32_seq(scale@, b@, p as int);
            }
        } else {
            assert(scale@ =~= Seq::<u32>::empty());
        }
        if let Some(p) = field_target_of(b, q, 3) {
            zero_point = match read_i64_vector(b, p) {
                Some(v) => v,
                None => return Err(CompileError::InvalidModel),
            };
            proof {
                lemma_i64_seq(zero_point@, b@, p as int);
            }
        } else {
            assert(zero_point@ =~= Seq::<i64>::empty());
        }
    } else {
        assert(scale@ =~= Seq::<u32>::empty());
        assert(zero_point@ =~= Seq::<i64>::empty());
    }
    Ok(TensorInfo { shape, tensor_type, buffer, scale, zero_point })
}

/// Decodes the operator table at `table`.
pub fn decode_operator(b: &[u8], table: usize) -> (r: Result<OperatorInfo, CompileError>)
    ensures
        r is Ok <==> operator_fits(b@, table as int),
        r matches Ok(o) ==> o@ == operator_facts(b@, table as int),
        r matches Ok(o) ==> (match field_pos(b@, table as int, 0) {
            Some(p) => in_bounds(b@, p, 4) && o.opcode_index == le_u32(b@, p),
            None => o.opcode_index == 0,
        }),
        r matches Err(e) ==> e == CompileError::InvalidModel,
{
    let opcode_index = match field_u32(b, table, 0, 0) {
        Some(v) => v,
        None => return Err(CompileError::InvalidModel),
    };
    let inputs = match field_target_of(b, table, 1) {
        Some(p) => match read_i32_vector(b, p) {
            Some(v) => {
                proof {
                    lemma_i32_seq(v@, b@, p as int);
                }
                v
            },
            None => return Err(CompileError::InvalidModel),
        },
        None => return Err(CompileError::InvalidModel),
    };
    let outputs = match field_target_of(b, table, 2) {
        Some(p) => match read_i32_vector(b, p) {
            Some(v) => {
                proof {
                    lemma_i32_seq(v@, b@, p as int);
                }
                v
            },
            None => return Err(CompileError::InvalidModel),
        },
        None => return Err(CompileError::InvalidModel),
    };
    let options_type = match field_u8(b, table, 3, 0) {
        Some(v) => v,
        None => return Err(CompileError::InvalidModel),
    };
    let options = field_target_of(b, table, 4);
    Ok(OperatorInfo { opcode_index, inputs, outputs, options_type, options })
}

/// Decodes the operator-code vector at `pos`: the deprecated one-byte builtin
/// code of each, sign-extended.
fn decode_operator_codes(b: &[u8], pos: usize) -> (r: Result<Vec<i32>, CompileError>)
    ensures
        r is Ok <==> codes_fit(b@, pos as int),
        r matches Ok(codes) ==> forall|i: int|
            0 <= i < codes@.len() ==> codes@[i] == #[trigger] code_of(b@, table_in(b@, pos as int, i).unwrap()),
        r matches Ok(codes) ==> vector_fits(b@, pos as int, 4) && codes@.len() == le_u32(
            b@,
            pos as int,
        ),
        r matches Err(e) ==> e == CompileError::InvalidModel,
{
    let n = match vector_len(b, pos, 4) {
        Some(n) => n,
        None => return Err(CompileError::InvalidModel),
    };
    let mut codes: Vec<i32> = Vec::new();
    let mut i: usize = 0;
    while i < n
        invariant
            vector_fits(b@, pos as int, 4),
            n == le_u32(b@, pos as int),
            i <= n,
            codes@.len() == i,
            forall|a: int|
                0 <= a < i ==> codes@[a] == #[trigger] code_of(b@, table_in(b@, pos as int, a).unwrap()),
            forall|a: int|
                0 <= a < i ==> (#[trigger] table_in(b@, pos as int, a)) is Some && scalar_fits(
                    b@,
                    table_in(b@, pos as int, a).unwrap(),
                    0,
                    1,
                ),
        decreases n - i,
    {
        let t = match table_of(b, pos, i) {
            Some(t) => t,
            None => return Err(CompileError::InvalidModel),
        };
        let byte = match field_u8(b, t, 0, 0) {
            Some(v) => v,
            None => return Err(CompileError::InvalidModel),
        };
        let code: i32 = if byte >= 128 { byte as i32 - 256 } else { byte as i32 };
        codes.push(code);
        i += 1;
    }
    Ok(codes)
}

fn decode_tensors(b: &[u8], pos: usize) -> (r: Result<Vec<TensorInfo>, CompileError>)
    ensures
        r is Ok <==> tensors_fit(b@, pos as int),
        r matches Ok(ts) ==> forall|i: int|
            0 <= i < ts@.len() ==> (#[trigger] ts@[i])@ == tensor_facts(b@, table_in(b@, pos as int, i).unwrap()),
        r matches Ok(ts) ==> vector_fits(b@, pos as int, 4) && ts@.len() == le_u32(b@, pos as int),
        r matches Err(e) ==> e == CompileError::InvalidModel,
{
    let n = match vector_len(b, pos, 4) {
        Some(n) => n,
        None => return Err(CompileError::InvalidModel),
    };
    let mut out: Vec<TensorInfo> = Vec::new();
    let mut i: usize = 0;
    while i < n
        invariant
            vector_fits(b@, pos as int, 4),
            n == le_u32(b@, pos as int),
            i <= n,
            out@.len() == i,
            forall|a: int|
                0 <= a < i ==> (#[trigger] out@[a])@ == tensor_facts(b@, table_in(b@, pos as int, a).unwrap()),
            forall|a: int|
                0 <= a < i ==> (#[trigger] table_in(b@, pos as int, a)) is Some && tensor_fits(
                    b@,
                    table_in(b@, pos as int, a).unwrap(),
                ),
        decreases n - i,
    {
        let t = match table_of(b, pos, i) {
            Some(t) => t,
            None => return Err(CompileError::InvalidModel),
        };
        let tensor = decode_tensor(b, t)?;
        out.push(tensor);
        i += 1;
    }
    Ok(out)
}

fn decode_operators(b: &[u8], pos: usize) -> (r: Result<Vec<OperatorInfo>, CompileError>)
    ensures
        r is Ok <==> operators_fit(b@, pos as int),
        r matches Ok(ops) ==> forall|i: int|
            0 <= i < ops@.len() ==> (#[trigger] ops@[i])@ == operator_facts(b@, table_in(b@, pos as int, i).unwrap()),
        r matches Ok(ops) ==> vector_fits(b@, pos as int, 4) && ops@.len() == le_u32(b@, pos as int),
        r matches Err(e) ==> e == CompileError::InvalidModel,
{
    let n = match vector_len(b, pos, 4) {
        Some(n) => n,
        None => return Err(CompileError::InvalidModel),
    };
    let mut out: Vec<OperatorInfo> = Vec::new();
    let mut i: usize = 0;
    while i < n
        invariant
            vector_fits(b@, pos as int, 4),
            n == le_u32(b@, pos as int),
            i <= n,
            out@.len() == i,
            forall|a: int|
                0 <= a < i ==> (#[trigger] out@[a])@ == operator_facts(b@, table_in(b@, pos as int, a).unwrap()),
            forall|a: int|
                0 <= a < i ==> (#[trigger] table_in(b@, pos as int, a)) is Some && operator_fits(
                    b@,
                    table_in(b@, pos as int, a).unwrap(),
                ),
        decreases n - i,
    {
        let t = match table_of(b, pos, i) {
            Some(t) => t,
            None => return Err(CompileError::InvalidModel),
        };
        let op = decode_operator(b, t)?;
        out.push(op);
        i += 1;
    }
    Ok(out)
}

fn decode_buffers(b: &[u8], pos: usize) -> (r: Result<Vec<Vec<u8>>, CompileError>)
    ensures
        r is Ok <==> buffers_fit(b@, pos as int),
        r matches Ok(bufs) ==> forall|i: int|
            0 <= i < bufs@.len() ==> (#[trigger] bufs@[i])@ == buffer_data(b@, table_in(b@, pos as int, i).unwrap()),
        r matches Ok(bufs) ==> vector_fits(b@, pos as int, 4) && bufs@.len() == le_u32(b@, pos as int),
        r matches Err(e) ==> e == CompileError::InvalidModel,
{
    let n = match vector_len(b, pos, 4) {
        Some(n) => n,
        None => return Err(CompileError::InvalidModel),
    };
    let mut out: Vec<Vec<u8>> = Vec::new();
    let mut i: usize = 0;
    while i < n
        invariant
            vector_fits(b@, pos as int, 4),
            n == le_u32(b@, pos as int),
            i <= n,
            out@.len() == i,
            forall|a: int|
                0 <= a < i ==> (#[trigger] out@[a])@ == buffer_data(b@, table_in(b@, pos as int, a).unwrap()),
            forall|a: int|
                0 <= a < i ==> (#[trigger] table_in(b@, pos as int, a)) is Some && optional_vector(
                    b@,
                    table_in(b@, pos as int, a).unwrap(),
                    0,
                    1,
                ),
        decreases n - i,
    {
        let t = match table_of(b, pos, i) {
            Some(t) => t,
            None => return Err(CompileError::InvalidModel),
        };
        let data = match field_target_of(b, t, 0) {
            Some(p) => match read_byte_vector(b, p) {
                Some(v) => v,
                None => return Err(CompileError::InvalidModel),
            },
            None => {
                let empty: Vec<u8> = Vec::new();
                assert(empty@ =~= Seq::<u8>::empty());
                empty
            },
        };
        out.push(data);
        i += 1;
    }
    Ok(out)
}

/// Decodes subgraph 0 of a TensorFlow Lite model, with the model's operator
/// codes and buffers.
pub fn decode_model(b: &[u8]) -> (r: Result<ModelInfo, CompileError>)
    ensures
        r is Ok <==> model_fits(b@),
        r matches Ok(m) ==> m@ == model_facts(b@),
        r matches Err(e) ==> e == CompileError::InvalidModel,
{
    let root = match read_offset(b, 0) {
        Some(p) => p,
        None => return Err(CompileError::InvalidModel),
    };
    let subgraphs = match field_target_of(b, root, 2) {
        Some(p) => p,
        None => return Err(CompileError::InvalidModel),
    };
    let count = match vector_len(b, subgraphs, 4) {
        Some(n) => n,
        None => return Err(CompileError::InvalidModel),
    };
    if count < 1 {
        return Err(CompileError::InvalidModel);
    }
    let subgraph = match table_of(b, subgraphs, 0) {
        Some(p) => p,
        None => return Err(CompileError::InvalidModel),
    };
    let codes_pos = match field_target_of(b, root, 1) {
        Some(p) => p,
        None => return Err(CompileError::InvalidModel),
    };
    let operator_codes = decode_operator_codes(b, codes_pos)?;
    let buffers_pos = match field_target_of(b, root, 4) {
        Some(p) => p,
        None => return Err(CompileError::InvalidModel),
    };
    let buffers = decode_buffers(b, buffers_pos)?;
    let tensors_pos = match field_target_of(b, subgraph, 0) {
        Some(p) => p,
        None => return Err(CompileError::InvalidModel),
    };
    let tensors = decode_tensors(b, tensors_pos)?;
    let inputs = match field_target_of(b, subgraph, 1) {
        Some(p) => match read_i32_vector(b, p) {
            Some(v) => {
                proof {
                    lemma_i32_seq(v@, b@, p as int);
                }
                v
            },
            None => return Err(CompileError::InvalidModel),
        },
        None => return Err(CompileError::InvalidModel),
    };
    let outputs = match field_target_of(b, subgraph, 2) {
        Some(p) => match read_i32_vector(b, p) {
            Some(v) => {
                proof {
                    lemma_i32_seq(v@, b@, p as int);
                }
                v
            },
            None => return Err(CompileError::InvalidModel),
        },
        None => return Err(CompileError::InvalidModel),
    };
    let operators_pos = match field_target_of(b, subgraph, 3) {
        Some(p) => p,
        None => return Err(CompileError::InvalidModel),
    };
    let operators = decode_operators(b, operators_pos)?;
    let m = ModelInfo { operator_codes, tensors, inputs, outputs, operators, buffers };
    proof {
        lemma_decoded_facts(
            b@,
            &m,
            root as int,
            subgraph as int,
            codes_pos as int,
            buffers_pos as int,
            tensors_pos as int,
            operators_pos as int,
        );
    }
    Ok(m)
}

} // verus!
