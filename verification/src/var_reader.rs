use byteorder::{ByteOrder, LittleEndian};
use vstd::prelude::*;

use crate::assoc::{insert_pair, key_position, lemma_key_position, unique_keys, AssocList};

verus! {

/// The type of a simulation variable as declared in a definition.
#[derive(Clone, Copy, Debug, PartialEq, Eq, Structural)]
pub enum InDataTypes {
    Bool,
    I32,
    I64,
    F64,
}

/// A simulation variable's value; a 64-bit float is held as its bit pattern.
#[derive(Clone, Copy, Debug, PartialEq, Eq, Structural)]
pub enum VarReaderTypes {
    Bool(bool),
    I32(i32),
    I64(i64),
    F64(u64),
}

/// Why a block of variable data could not be read.
#[derive(Clone, Copy, Debug, PartialEq, Eq, Structural)]
pub enum ReadError {
    /// An item names a datum id that was never defined.
    NotFound,
    /// The data ends inside an item.
    OutOfData,
}

/// The little-endian `u32` in the first four bytes of `b`.
pub open spec fn le_u32(b: Seq<u8>) -> u32 {
    (b[0] as u32) | ((b[1] as u32) << 8) | ((b[2] as u32) << 16) | ((b[3] as u32) << 24)
}

/// The little-endian `u64` in the first eight bytes of `b`.
pub open spec fn le_u64(b: Seq<u8>) -> u64 {
    (b[0] as u64) | ((b[1] as u64) << 8) | ((b[2] as u64) << 16) | ((b[3] as u64) << 24) | ((
    b[4] as u64) << 32) | ((b[5] as u64) << 40) | ((b[6] as u64) << 48) | ((b[7] as u64) << 56)
}

/// The four little-endian bytes of `n`.
pub open spec fn le_bytes32(n: u32) -> Seq<u8> {
    seq![
        (n & 0xff) as u8,
        ((n >> 8) & 0xff) as u8,
        ((n >> 16) & 0xff) as u8,
        ((n >> 24) & 0xff) as u8,
    ]
}

/// The eight little-endian bytes of `n`.
pub open spec fn le_bytes64(n: u64) -> Seq<u8> {
    seq![
        (n & 0xff) as u8,
        ((n >> 8) & 0xff) as u8,
        ((n >> 16) & 0xff) as u8,
        ((n >> 24) & 0xff) as u8,
        ((n >> 32) & 0xff) as u8,
        ((n >> 40) & 0xff) as u8,
        ((n >> 48) & 0xff) as u8,
        ((n >> 56) & 0xff) as u8,
    ]
}

/// Reads the first four bytes of `buf` as a little-endian `u32`, with
/// `byteorder`'s `LittleEndian::read_u32`.
#[verifier::external_body]
fn read_u32_le(buf: &[u8]) -> (res: u32)
    requires
        buf@.len() >= 4,
    ensures
        res == le_u32(buf@),
{
    LittleEndian::read_u32(buf)
}

/// Reads the first four bytes of `buf` as a little-endian `i32`, with
/// `byteorder`'s `LittleEndian::read_i32`, which reinterprets the `u32`.
#[verifier::external_body]
fn read_i32_le(buf: &[u8]) -> (res: i32)
    requires
        buf@.len() >= 4,
    ensures
        res == le_u32(buf@) as i32,
{
    LittleEndian::read_i32(buf)
}

/// Reads the first eight bytes of `buf` as a little-endian `u64`, with
/// `byteorder`'s `LittleEndian::read_u64`.
#[verifier::external_body]
fn read_u64_le(buf: &[u8]) -> (res: u64)
    requires
        buf@.len() >= 8,
    ensures
        res == le_u64(buf@),
{
    LittleEndian::read_u64(buf)
}

/// Reads the first eight bytes of `buf` as a little-endian `i64`, with
/// `byteorder`'s `LittleEndian::read_i64`, which reinterprets the `u64`.
#[verifier::external_body]
fn read_i64_le(buf: &[u8]) -> (res: i64)
    requires
        buf@.len() >= 8,
    ensures
        res == le_u64(buf@) as i64,
{
    LittleEndian::read_i64(buf)
}

/// Appends the little-endian bytes of `n`.
pub fn push_le_u32(out: &mut Vec<u8>, n: u32)
    ensures
        final(out)@ == old(out)@ + le_bytes32(n),
{
    out.push((n & 0xff) as u8);
    out.push(((n >> 8) & 0xff) as u8);
    out.push(((n >> 16) & 0xff) as u8);
    out.push(((n >> 24) & 0xff) as u8);
    assert(final(out)@ =~= old(out)@ + le_bytes32(n));
}

/// Appends the little-endian bytes of `n`.
pub fn push_le_u64(out: &mut Vec<u8>, n: u64)
    ensures
        final(out)@ == old(out)@ + le_bytes64(n),
{
    out.push((n & 0xff) as u8);
    out.push(((n >> 8) & 0xff) as u8);
    out.push(((n >> 16) & 0xff) as u8);
    out.push(((n >> 24) & 0xff) as u8);
    out.push(((n >> 32) & 0xff) as u8);
    out.push(((n >> 40) & 0xff) as u8);
    out.push(((n >> 48) & 0xff) as u8);
    out.push(((n >> 56) & 0xff) as u8);
    assert(final(out)@ =~= old(out)@ + le_bytes64(n));
}

/// Reading back the bytes of a `u32` gives the `u32`.
pub proof fn lemma_le32_round_trip(n: u32)
    ensures
        le_u32(le_bytes32(n)) == n,
{
    let b = le_bytes32(n);
    let (b0, b1, b2, b3) = (b[0], b[1], b[2], b[3]);
    assert(b0 == (n & 0xff) as u8 && b1 == ((n >> 8) & 0xff) as u8 && b2 == ((n >> 16) & 0xff) as u8
        && b3 == ((n >> 24) & 0xff) as u8);
    assert((b0 as u32) | ((b1 as u32) << 8) | ((b2 as u32) << 16) | ((b3 as u32) << 24) == n)
        by (bit_vector)
        requires
            b0 == (n & 0xff) as u8,
            b1 == ((n >> 8) & 0xff) as u8,
            b2 == ((n >> 16) & 0xff) as u8,
            b3 == ((n >> 24) & 0xff) as u8,
    ;
}

/// Reading back the bytes of a `u64` gives the `u64`.
pub proof fn lemma_le64_round_trip(n: u64)
    ensures
        le_u64(le_bytes64(n)) == n,
{
    let b = le_bytes64(n);
    let (b0, b1, b2, b3, b4, b5, b6, b7) = (b[0], b[1], b[2], b[3], b[4], b[5], b[6], b[7]);
    assert(b0 == (n & 0xff) as u8 && b1 == ((n >> 8) & 0xff) as u8 && b2 == ((n >> 16) & 0xff) as u8
        && b3 == ((n >> 24) & 0xff) as u8 && b4 == ((n >> 32) & 0xff) as u8 && b5 == ((n >> 40)
        & 0xff) as u8 && b6 == ((n >> 48) & 0xff) as u8 && b7 == ((n >> 56) & 0xff) as u8);
    assert((b0 as u64) | ((b1 as u64) << 8) | ((b2 as u64) << 16) | ((b3 as u64) << 24) | ((
    b4 as u64) << 32) | ((b5 as u64) << 40) | ((b6 as u64) << 48) | ((b7 as u64) << 56) == n)
        by (bit_vector)
        requires
            b0 == (n & 0xff) as u8,
            b1 == ((n >> 8) & 0xff) as u8,
            b2 == ((n >> 16) & 0xff) as u8,
            b3 == ((n >> 24) & 0xff) as u8,
            b4 == ((n >> 32) & 0xff) as u8,
            b5 == ((n >> 40) & 0xff) as u8,
            b6 == ((n >> 48) & 0xff) as u8,
            b7 == ((n >> 56) & 0xff) as u8,
    ;
}

/// Where the last definition of `name` stands in `defs`, or -1.
pub open spec fn last_index_of(defs: Seq<(Seq<char>, InDataTypes)>, name: Seq<char>) -> int
    decreases defs.len(),
{
    if defs.len() == 0 {
        -1
    } else if defs.last().0 == name {
        defs.len() - 1
    } else {
        last_index_of(defs.drop_last(), name)
    }
}

pub proof fn lemma_last_index_of(defs: Seq<(Seq<char>, InDataTypes)>, name: Seq<char>)
    ensures
        -1 <= last_index_of(defs, name) < defs.len(),
        last_index_of(defs, name) >= 0 ==> defs[last_index_of(defs, name)].0 == name,
        last_index_of(defs, name) < 0 ==> forall|i: int| 0 <= i < defs.len() ==> defs[i].0 != name,
        forall|i: int| last_index_of(defs, name) < i < defs.len() ==> defs[i].0 != name,
    decreases defs.len(),
{
    if defs.len() > 0 {
        lemma_last_index_of(defs.drop_last(), name);
        if defs.last().0 != name {
            assert forall|i: int| last_index_of(defs, name) < i < defs.len() implies defs[i].0 != name by {
                if i < defs.len() - 1 {
                    assert(defs[i] == defs.drop_last()[i]);
                }
            }
            if last_index_of(defs, name) < 0 {
                assert forall|i: int| 0 <= i < defs.len() implies defs[i].0 != name by {
                    if i < defs.len() - 1 {
                        assert(defs[i] == defs.drop_last()[i]);
                    }
                }
            }
        }
    }
}

/// How many bytes an item of type `t` takes: its datum id, then four bytes
/// for a boolean or a 32-bit integer and eight for the wide types.
pub open spec fn item_size(t: InDataTypes) -> int {
    match t {
        InDataTypes::Bool | InDataTypes::I32 => 8,
        InDataTypes::I64 | InDataTypes::F64 => 12,
    }
}

/// The value of type `t` whose bytes start `b`.
pub open spec fn decode_value(t: InDataTypes, b: Seq<u8>) -> VarReaderTypes {
    match t {
        InDataTypes::Bool => VarReaderTypes::Bool(le_u32(b) as i32 != 0),
        InDataTypes::I32 => VarReaderTypes::I32(le_u32(b) as i32),
        InDataTypes::I64 => VarReaderTypes::I64(le_u64(b) as i64),
        InDataTypes::F64 => VarReaderTypes::F64(le_u64(b)),
    }
}

/// Reads `count` items of `bytes` from `pos` on, adding each to `acc` under
/// the name its datum id was defined with; a later item of a name replaces an
/// earlier one.
pub open spec fn read_items(
    defs: Seq<(Seq<char>, InDataTypes)>,
    bytes: Seq<u8>,
    pos: int,
    count: nat,
    acc: Seq<(Seq<char>, VarReaderTypes)>,
) -> Result<Seq<(Seq<char>, VarReaderTypes)>, ReadError>
    decreases count,
{
    if count == 0 {
        Ok(acc)
    } else if pos + 4 > bytes.len() {
        Err(ReadError::OutOfData)
    } else {
        let id = le_u32(bytes.subrange(pos, pos + 4));
        if id >= defs.len() {
            Err(ReadError::NotFound)
        } else {
            let t = defs[id as int].1;
            if pos + item_size(t) > bytes.len() {
                Err(ReadError::OutOfData)
            } else {
                read_items(
                    defs,
                    bytes,
                    pos + item_size(t),
                    (count - 1) as nat,
                    insert_pair(acc, defs[id as int].0, decode_value(t, bytes.subrange(pos + 4, pos + item_size(t)))),
                )
            }
        }
    }
}

/// The eight bytes a value is written as.
pub open spec fn encode_value(v: VarReaderTypes) -> Seq<u8> {
    match v {
        VarReaderTypes::Bool(b) => le_bytes64(
            if b {
                1u64
            } else {
                0u64
            },
        ),
        VarReaderTypes::I32(n) => le_bytes64((n as i64) as u64),
        VarReaderTypes::I64(n) => le_bytes64(n as u64),
        VarReaderTypes::F64(bits) => le_bytes64(bits),
    }
}

/// The bytes one named value is written as: the datum id of its name, then
/// the value.
pub open spec fn encode_one(defs: Seq<(Seq<char>, InDataTypes)>, e: (Seq<char>, VarReaderTypes)) -> Seq<u8> {
    le_bytes32(last_index_of(defs, e.0) as u32) + encode_value(e.1)
}

/// The bytes the named values of `data` are written as, in order.
pub open spec fn encode_items(defs: Seq<(Seq<char>, InDataTypes)>, data: Seq<(Seq<char>, VarReaderTypes)>) -> Seq<u8>
    decreases data.len(),
{
    if data.len() == 0 {
        Seq::empty()
    } else {
        encode_one(defs, data[0]) + encode_items(defs, data.subrange(1, data.len() as int))
    }
}

pub proof fn lemma_encode_push(
    defs: Seq<(Seq<char>, InDataTypes)>,
    data: Seq<(Seq<char>, VarReaderTypes)>,
    e: (Seq<char>, VarReaderTypes),
)
    ensures
        encode_items(defs, data.push(e)) == encode_items(defs, data) + encode_one(defs, e),
    decreases data.len(),
{
    if data.len() == 0 {
        let single = data.push(e);
        assert(single.subrange(1, 1) =~= Seq::<(Seq<char>, VarReaderTypes)>::empty());
        assert(encode_items(defs, single.subrange(1, 1)) == Seq::<u8>::empty());
        assert(single[0] == e);
        assert(encode_items(defs, single) == encode_one(defs, e) + encode_items(defs, single.subrange(1, 1)));
        assert(encode_items(defs, data) == Seq::<u8>::empty());
        assert(encode_items(defs, single) =~= encode_one(defs, e));
    } else {
        let rest = data.subrange(1, data.len() as int);
        lemma_encode_push(defs, rest, e);
        assert(data.push(e).subrange(1, (data.len() + 1) as int) =~= rest.push(e));
        assert(encode_items(defs, data.push(e)) =~= encode_one(defs, data[0]) + (encode_items(defs, rest)
            + encode_one(defs, e)));
    }
}

/// Whether the names of `data` are all defined, each as a wide type that its
/// value has, and appear once each; the definitions are few enough that each
/// datum id fits in 32 bits.
pub open spec fn wide_and_matching(defs: Seq<(Seq<char>, InDataTypes)>, data: Seq<(Seq<char>, VarReaderTypes)>) -> bool {
    &&& defs.len() <= u32::MAX
    &&& unique_keys(data)
    &&& forall|i: int|
        0 <= i < data.len() ==> {
            let k = #[trigger] last_index_of(defs, data[i].0);
            &&& k >= 0
            &&& match data[i].1 {
                VarReaderTypes::I64(_) => defs[k].1 == InDataTypes::I64,
                VarReaderTypes::F64(_) => defs[k].1 == InDataTypes::F64,
                _ => false,
            }
        }
}

proof fn lemma_read_encoded(
    defs: Seq<(Seq<char>, InDataTypes)>,
    pre: Seq<u8>,
    acc: Seq<(Seq<char>, VarReaderTypes)>,
    data: Seq<(Seq<char>, VarReaderTypes)>,
)
    requires
        wide_and_matching(defs, data),
        unique_keys(acc + data),
    ensures
        read_items(defs, pre + encode_items(defs, data), pre.len() as int, data.len(), acc) == Ok::<
            Seq<(Seq<char>, VarReaderTypes)>,
            ReadError,
        >(acc + data),
    decreases data.len(),
{
    if data.len() == 0 {
        assert(acc + data =~= acc);
    } else {
        let e = data[0];
        let rest = data.subrange(1, data.len() as int);
        let k = last_index_of(defs, e.0);
        lemma_last_index_of(defs, e.0);
        assert(k >= 0);
        let id = k as u32;
        assert(id == k);
        let bytes = pre + encode_items(defs, data);
        let pos = pre.len() as int;
        let one = encode_one(defs, e);
        assert(bytes =~= (pre + one) + encode_items(defs, rest));
        assert(bytes.subrange(pos, pos + 4) =~= le_bytes32(id));
        lemma_le32_round_trip(id);
        let t = defs[k].1;
        assert(item_size(t) == 12);
        assert(bytes.subrange(pos + 4, pos + 12) =~= encode_value(e.1));
        let v = decode_value(t, bytes.subrange(pos + 4, pos + 12));
        match e.1 {
            VarReaderTypes::I64(n) => {
                lemma_le64_round_trip(n as u64);
                assert(((n as u64) as i64) == n) by (bit_vector);
                assert(v == e.1);
            },
            VarReaderTypes::F64(bits) => {
                lemma_le64_round_trip(bits);
                assert(v == e.1);
            },
            _ => {
                assert(false);
            },
        }
        // The name is new to `acc`
        lemma_key_position(acc, e.0);
        assert((acc + data)[acc.len() as int] == e);
        if key_position(acc, e.0) >= 0 {
            let q = key_position(acc, e.0);
            assert((acc + data)[q].0 == e.0);
        }
        assert(insert_pair(acc, e.0, v) == acc.push(e));
        assert(acc.push(e) + rest =~= acc + data);
        assert forall|i: int| 0 <= i < rest.len() implies {
            let k2 = #[trigger] last_index_of(defs, rest[i].0);
            &&& k2 >= 0
            &&& match rest[i].1 {
                VarReaderTypes::I64(_) => defs[k2].1 == InDataTypes::I64,
                VarReaderTypes::F64(_) => defs[k2].1 == InDataTypes::F64,
                _ => false,
            }
        } by {
            assert(rest[i] == data[i + 1]);
            let k3 = last_index_of(defs, data[i + 1].0);
        }
        assert forall|a: int, b: int| 0 <= a < rest.len() && 0 <= b < rest.len() && a != b implies rest[a].0
            != rest[b].0 by {
            assert(rest[a] == data[a + 1]);
            assert(rest[b] == data[b + 1]);
        }
        lemma_read_encoded(defs, pre + one, acc.push(e), rest);
        assert(pre + one + encode_items(defs, rest) =~= bytes);
    }
}

struct DefinitionEntry {
    data_type: InDataTypes,
    data_name: String,
}

/// Reads and writes tagged simulation variable data: each variable is defined
/// with a name and a type, and its datum id is where its definition stands.
pub struct VarReader {
    data_map: Vec<DefinitionEntry>,
}

impl VarReader {
    /// The definitions, in order: names and types.
    pub closed spec fn defs(&self) -> Seq<(Seq<char>, InDataTypes)> {
        self.data_map@.map_values(|e: DefinitionEntry| (e.data_name@, e.data_type))
    }

    pub fn new() -> (res: Self)
        ensures
            res.defs() == Seq::<(Seq<char>, InDataTypes)>::empty(),
    {
        let res = VarReader { data_map: Vec::new() };
        assert(res.defs() =~= Seq::<(Seq<char>, InDataTypes)>::empty());
        res
    }

    /// Defines `data_name` as the next datum id, which is returned.
    pub fn add_definition(&mut self, data_name: &str, data_type: InDataTypes) -> (res: u32)
        ensures
            final(self).defs() == old(self).defs().push((data_name@, data_type)),
            res == old(self).defs().len() as u32,
    {
        let datum_id = self.data_map.len() as u32;
        self.data_map.push(DefinitionEntry { data_type, data_name: String::from_str(data_name) });
        assert(self.defs() =~= old(self).defs().push((data_name@, data_type)));
        datum_id
    }

    pub fn get_number_definitions(&self) -> (res: u32)
        ensures
            res == self.defs().len() as u32,
    {
        self.data_map.len() as u32
    }

    fn datum_id_of(&self, name: &String) -> (res: Option<usize>)
        ensures
            match res {
                Some(i) => i == last_index_of(self.defs(), name@),
                None => last_index_of(self.defs(), name@) == -1,
            },
    {
        proof {
            lemma_last_index_of(self.defs(), name@);
        }
        let mut i: usize = self.data_map.len();
        while i > 0
            invariant
                i <= self.defs().len(),
                forall|j: int| i <= j < self.defs().len() ==> self.defs()[j].0 != name@,
            decreases i,
        {
            if self.data_map[i - 1].data_name == *name {
                proof {
                    assert(self.defs()[i - 1].0 == name@);
                    lemma_last_index_of(self.defs(), name@);
                }
                return Some(i - 1);
            }
            i = i - 1;
        }
        None
    }

    /// Reads `item_count` items from `bytes`: each is a datum id and its value,
    /// as `read_items` says.
    pub fn read_from_bytes(&self, item_count: u32, bytes: &[u8]) -> (res: Result<AssocList<String, VarReaderTypes>, ReadError>)
        ensures
            match res {
                Ok(m) => m.wf() && read_items(self.defs(), bytes@, 0, item_count as nat, Seq::empty()) == Ok::<
                    Seq<(Seq<char>, VarReaderTypes)>,
                    ReadError,
                >(m.pairs()),
                Err(e) => read_items(self.defs(), bytes@, 0, item_count as nat, Seq::empty()) == Err::<
                    Seq<(Seq<char>, VarReaderTypes)>,
                    ReadError,
                >(e),
            },
    {
        let mut return_data: AssocList<String, VarReaderTypes> = AssocList::new();
        let mut pos: usize = 0;
        let mut n: u32 = 0;
        while n < item_count
            invariant
                n <= item_count,
                pos <= bytes@.len(),
                return_data.wf(),
                read_items(self.defs(), bytes@, 0, item_count as nat, Seq::empty()) == read_items(
                    self.defs(),
                    bytes@,
                    pos as int,
                    (item_count - n) as nat,
                    return_data.pairs(),
                ),
            decreases item_count - n,
        {
            if bytes.len() - pos < 4 {
                return Err(ReadError::OutOfData);
            }
            // Read the datum id
            let datum_id = read_u32_le(vstd::slice::slice_subrange(bytes, pos, pos + 4));
            // Get the definition of the datum id
            if datum_id as usize >= self.data_map.len() {
                return Err(ReadError::NotFound);
            }
            let data = &self.data_map[datum_id as usize];
            let size: usize = match data.data_type {
                InDataTypes::Bool | InDataTypes::I32 => 8,
                InDataTypes::I64 | InDataTypes::F64 => 12,
            };
            if bytes.len() - pos < size {
                return Err(ReadError::OutOfData);
            }
            let value_bytes = vstd::slice::slice_subrange(bytes, pos + 4, pos + size);
            let result_data = match data.data_type {
                InDataTypes::Bool => VarReaderTypes::Bool(read_i32_le(value_bytes) != 0),
                InDataTypes::I32 => VarReaderTypes::I32(read_i32_le(value_bytes)),
                InDataTypes::I64 => VarReaderTypes::I64(read_i64_le(value_bytes)),
                InDataTypes::F64 => VarReaderTypes::F64(read_u64_le(value_bytes)),
            };
            proof {
                assert(self.defs()[datum_id as int] == (data.data_name@, data.data_type));
            }
            return_data.insert(data.data_name.clone(), result_data);
            pos = pos + size;
            n = n + 1;
        }
        Ok(return_data)
    }

    /// Writes `data`, in order: each value's datum id, then the value in eight
    /// bytes, as `encode_items` says; every name must be defined.
    pub fn write_to_data(&self, data: &Vec<(String, VarReaderTypes)>) -> (res: Vec<u8>)
        requires
            forall|i: int| 0 <= i < data@.len() ==> #[trigger] last_index_of(self.defs(), data@[i].0@) >= 0,
        ensures
            res@ == encode_items(self.defs(), named_values(data@)),
    {
        let mut buf: Vec<u8> = Vec::new();
        let mut i: usize = 0;
        while i < data.len()
            invariant
                i <= data@.len(),
                forall|j: int| 0 <= j < data@.len() ==> #[trigger] last_index_of(self.defs(), data@[j].0@) >= 0,
                buf@ == encode_items(self.defs(), named_values(data@).take(i as int)),
            decreases data.len() - i,
        {
            let ghost before = named_values(data@).take(i as int);
            let ghost e = named_values(data@)[i as int];
            assert(last_index_of(self.defs(), data@[i as int].0@) >= 0);
            let datum_id = match self.datum_id_of(&data[i].0) {
                Some(k) => k as u32,
                None => 0,
            };
            push_le_u32(&mut buf, datum_id);
            match data[i].1 {
                VarReaderTypes::Bool(b) => push_le_u64(&mut buf, if b { 1 } else { 0 }),
                VarReaderTypes::I32(n) => push_le_u64(&mut buf, (n as i64) as u64),
                VarReaderTypes::I64(n) => push_le_u64(&mut buf, n as u64),
                VarReaderTypes::F64(bits) => push_le_u64(&mut buf, bits),
            }
            proof {
                lemma_encode_push(self.defs(), before, e);
                assert(named_values(data@).take(i + 1) =~= before.push(e));
                assert(buf@ =~= encode_items(self.defs(), before) + encode_one(self.defs(), e));
            }
            i = i + 1;
        }
        assert(named_values(data@).take(i as int) =~= named_values(data@));
        buf
    }
}

/// The named values of `data`, names as character sequences.
pub open spec fn named_values(data: Seq<(String, VarReaderTypes)>) -> Seq<(Seq<char>, VarReaderTypes)> {
    data.map_values(|e: (String, VarReaderTypes)| (e.0@, e.1))
}

/// What is written of wide values whose names are defined with their types is
/// read back the same, in the same order.
pub proof fn lemma_write_read_round_trip(reader: &VarReader, data: Seq<(Seq<char>, VarReaderTypes)>)
    requires
        wide_and_matching(reader.defs(), data),
    ensures
        read_items(reader.defs(), encode_items(reader.defs(), data), 0, data.len(), Seq::empty()) == Ok::<
            Seq<(Seq<char>, VarReaderTypes)>,
            ReadError,
        >(data),
{
    let empty = Seq::<(Seq<char>, VarReaderTypes)>::empty();
    assert(empty + data =~= data);
    assert(Seq::<u8>::empty() + encode_items(reader.defs(), data) =~= encode_items(reader.defs(), data));
    lemma_read_encoded(reader.defs(), Seq::empty(), empty, data);
}

} // verus!
