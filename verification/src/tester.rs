//! The plain state and value parsing of the chain test client: the
//! per-test globals, the JSON key selector, the table-query parameter
//! record, and the balance read out of a table row's hex payload. The
//! client's transport lives outside the library.

use vstd::bytes::spec_u64_from_le_bytes;
use vstd::bytes::u64_from_le_bytes;
use vstd::prelude::*;
use vstd::string::StringExecFns;
use vstd::string::StringSliceAdditionalSpecFns;

use crate::codec::CodecError;
use crate::hexstr::decode_hex;
use crate::hexstr::hex_bytes_ok;
use crate::hexstr::spec_hex_decode;

verus! {

/// The name of the test case being run and whether debug mode is on.
pub struct GlobalVariables {
    pub current_test_case: String,
    pub debug_mode: bool,
}

impl GlobalVariables {
    /// Fresh globals: no test case, debug mode off.
    pub fn new() -> (r: GlobalVariables)
        ensures
            r.current_test_case@ == Seq::<char>::empty(),
            r.debug_mode == false,
    {
        GlobalVariables { current_test_case: String::new(), debug_mode: false }
    }

    /// The name of the test case being run.
    pub fn get_current_test_case(&self) -> (r: String)
        ensures
            r@ == self.current_test_case@,
    {
        self.current_test_case.clone()
    }

    /// Record which test case is running.
    pub fn set_current_test_case(&mut self, test_case: &str)
        ensures
            final(self).current_test_case@ == test_case@,
            final(self).debug_mode == old(self).debug_mode,
    {
        self.current_test_case = String::from_str(test_case);
    }

    /// Switch debug mode on or off.
    pub fn set_debug_mode(&mut self, enable: bool)
        ensures
            final(self).debug_mode == enable,
            final(self).current_test_case@ == old(self).current_test_case@,
    {
        self.debug_mode = enable;
    }

    /// Whether debug mode is on.
    pub fn get_debug_mode(&self) -> (r: bool)
        ensures
            r == self.debug_mode,
    {
        self.debug_mode
    }
}

/// A key into a JSON document: an array index or an object key.
pub enum JsonKeyType {
    ArrayIndex(usize),
    MapKey(String),
}

impl From<usize> for JsonKeyType {
    fn from(value: usize) -> (r: JsonKeyType) {
        JsonKeyType::ArrayIndex(value)
    }
}

impl vstd::std_specs::convert::FromSpecImpl<usize> for JsonKeyType {
    open spec fn obeys_from_spec() -> bool {
        true
    }

    open spec fn from_spec(value: usize) -> JsonKeyType {
        JsonKeyType::ArrayIndex(value)
    }
}

impl From<String> for JsonKeyType {
    fn from(value: String) -> (r: JsonKeyType) {
        JsonKeyType::MapKey(value)
    }
}

impl vstd::std_specs::convert::FromSpecImpl<String> for JsonKeyType {
    open spec fn obeys_from_spec() -> bool {
        true
    }

    open spec fn from_spec(value: String) -> JsonKeyType {
        JsonKeyType::MapKey(value)
    }
}

/// The parameters of a table-rows query against the debug server.
pub struct GetTableRowsPrams<'a> {
    pub json: bool,
    pub code: &'a str,
    pub scope: &'a str,
    pub table: &'a str,
    pub lower_bound: &'a str,
    pub upper_bound: &'a str,
    pub limit: i64,
    pub key_type: &'a str,
    pub index_position: &'a str,
    pub encode_type: &'a str,
    pub reverse: bool,
    pub show_payer: bool,
}

impl<'a> Default for GetTableRowsPrams<'a> {
    fn default() -> (r: GetTableRowsPrams<'a>)
        ensures
            r.json == true,
            r.code@ == Seq::<char>::empty(),
            r.scope@ == Seq::<char>::empty(),
            r.table@ == Seq::<char>::empty(),
            r.lower_bound@ == Seq::<char>::empty(),
            r.upper_bound@ == Seq::<char>::empty(),
            r.limit == 10,
            r.key_type@ == Seq::<char>::empty(),
            r.index_position@ == Seq::<char>::empty(),
            r.encode_type@ == Seq::<char>::empty(),
            r.reverse == false,
            r.show_payer == false,
    {
        proof {
            reveal_strlit("");
        }
        GetTableRowsPrams {
            json: true,
            code: "",
            scope: "",
            table: "",
            lower_bound: "",
            upper_bound: "",
            limit: 10,
            key_type: "",
            index_position: "",
            encode_type: "",
            reverse: false,
            show_payer: false,
        }
    }
}

/// The balance held in a table row's hex payload: the first 8 decoded
/// bytes read as a little-endian 64-bit amount. Rejected when the
/// payload is no hex spelling or holds fewer than 8 bytes.
pub fn balance_from_hex(s: &str) -> (r: Result<u64, CodecError>)
    ensures
        match r {
            Ok(v) => s.spec_bytes().len() % 2 == 0 && hex_bytes_ok(s.spec_bytes())
                && spec_hex_decode(s.spec_bytes()).len() >= 8 && v == spec_u64_from_le_bytes(
                spec_hex_decode(s.spec_bytes()).subrange(0, 8),
            ),
            Err(e) => (e == CodecError::BadHexLength && s.spec_bytes().len() % 2 != 0) || (e
                == CodecError::BadHexChar && s.spec_bytes().len() % 2 == 0 && !hex_bytes_ok(
                s.spec_bytes(),
            )) || (e == CodecError::BufferOverflow && s.spec_bytes().len() % 2 == 0
                && hex_bytes_ok(s.spec_bytes()) && spec_hex_decode(s.spec_bytes()).len() < 8),
        },
{
    let bytes = s.as_bytes();
    match decode_hex(bytes) {
        Ok(v) => {
            if v.len() < 8 {
                Err(CodecError::BufferOverflow)
            } else {
                let amount = u64_from_le_bytes(vstd::slice::slice_subrange(v.as_slice(), 0, 8));
                Ok(amount)
            }
        },
        Err(e) => Err(e),
    }
}

} // verus!
