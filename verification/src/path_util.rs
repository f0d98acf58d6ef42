//! Lexical absolutization for string-typed paths.

use vstd::prelude::*;
use vstd::string::StringSliceAdditionalSpecFns;
use vstd::string::StrSliceExecFns;

use crate::path::{absolute_of, absolute_path};

verus! {

/// Lexical absolutization against a working directory, for string paths.
pub trait ToAbsolutePath {
    /// The path's bytes.
    spec fn path_view(&self) -> Seq<u8>;

    /// The path resolved against the absolute directory `cwd`.
    fn absolute(&self, cwd: &Vec<u8>) -> (r: Vec<u8>)
        ensures
            r@ == absolute_of(self.path_view(), cwd@),
    ;
}

impl ToAbsolutePath for String {
    open spec fn path_view(&self) -> Seq<u8> {
        crate::str_bytes_of(self@)
    }

    fn absolute(&self, cwd: &Vec<u8>) -> (r: Vec<u8>)
        ensures
            r@ == absolute_of(crate::str_bytes_of(self@), cwd@),
    {
        let v = crate::bytestr::str_to_bytes(self.as_str());
        absolute_path(&v, cwd)
    }
}

} // verus!
