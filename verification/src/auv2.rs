//! Audio Unit identification of a plugin: the four-character type and
//! subtype codes under which a wrapper advertises it.

use vstd::prelude::*;
use vstd::string::StringSliceAdditionalSpecFns;

verus! {

/// The Audio Unit type and subtype codes of one plugin, each stored as four
/// bytes followed by a terminating zero.
#[derive(Debug, Copy, Clone)]
pub struct PluginInfoAsAUv2 {
    au_type: [u8; 5],
    au_subt: [u8; 5],
}

/// The five-byte field that holds a four-byte code: the code, then a zero.
pub open spec fn code_field(code: Seq<u8>) -> Seq<u8> {
    code.push(0u8)
}

impl PluginInfoAsAUv2 {
    /// The stored type field.
    pub closed spec fn type_field(&self) -> Seq<u8> {
        self.au_type@
    }

    /// The stored subtype field.
    pub closed spec fn subtype_field(&self) -> Seq<u8> {
        self.au_subt@
    }

    /// Builds the info from two codes of exactly four bytes each.
    pub fn new(au_type: &str, au_subt: &str) -> (info: Self)
        requires
            au_type.spec_bytes().len() == 4,
            au_subt.spec_bytes().len() == 4,
        ensures
            info.type_field() == code_field(au_type.spec_bytes()),
            info.subtype_field() == code_field(au_subt.spec_bytes()),
    {
        let type_bytes = au_type.as_bytes();
        let subt_bytes = au_subt.as_bytes();
        let info = PluginInfoAsAUv2 {
            au_type: [type_bytes[0], type_bytes[1], type_bytes[2], type_bytes[3], 0u8],
            au_subt: [subt_bytes[0], subt_bytes[1], subt_bytes[2], subt_bytes[3], 0u8],
        };
        assert(info.au_type@ =~= code_field(au_type.spec_bytes()));
        assert(info.au_subt@ =~= code_field(au_subt.spec_bytes()));
        info
    }

    /// The type field as it is handed to a host: five bytes.
    pub fn au_type(&self) -> (field: [u8; 5])
        ensures
            field@ == self.type_field(),
    {
        self.au_type
    }

    /// The subtype field as it is handed to a host: five bytes.
    pub fn au_subt(&self) -> (field: [u8; 5])
        ensures
            field@ == self.subtype_field(),
    {
        self.au_subt
    }
}

/// A plugin factory that can say under which Audio Unit codes the plugin at
/// an index is advertised.
pub trait PluginFactoryAsAUv2 {
    fn get_auv2_info(&self, index: u32) -> Option<PluginInfoAsAUv2>;
}

} // verus!
