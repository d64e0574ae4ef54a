//! Typed accessors on the main index header: conveniences for well-known
//! tags, and the reconstruction of full file paths from the base-name,
//! directory-index and directory-name triple.

use vstd::prelude::*;
use vstd::string::{StrSliceExecFns, StringExecFns};
use crate::bytes::as_unsigned32;
use crate::data::strs_view;
use crate::error::{RpmError, RpmErrorView};
use crate::header::{
    spec_get_i32, spec_get_i32_array, spec_get_i64, spec_get_string, spec_get_string_array, Header,
    HeaderView,
};
use crate::tag::{IndexTag, Tag};

verus! {

/// One full path: the directory joined with the base name. A NUL-free
/// absolute base name replaces the directory; otherwise a separator is
/// inserted unless the directory already ends with one or is empty.
pub open spec fn spec_join(dir: Seq<char>, base: Seq<char>) -> Seq<char> {
    if base.len() > 0 && base[0] == '/' {
        base
    } else if dir.len() == 0 {
        base
    } else if dir[dir.len() - 1] == '/' {
        dir + base
    } else {
        dir + seq!['/'] + base
    }
}

/// The truncation of a length to the 32-bit bound that diagnostics carry.
pub open spec fn spec_bound32(n: int) -> u32 {
    (n % 0x100000000) as u32
}

/// The first `k` joined paths, or the error for the first directory index
/// that points past the directory-name list.
pub open spec fn spec_join_upto(
    base: Seq<Seq<char>>,
    biject: Seq<i32>,
    dirs: Seq<Seq<char>>,
    k: int,
) -> Result<Seq<Seq<char>>, RpmErrorView>
    recommends
        k <= base.len(),
        k <= biject.len(),
    decreases k,
{
    if k <= 0 {
        Ok(Seq::empty())
    } else {
        match spec_join_upto(base, biject, dirs, k - 1) {
            Err(e) => Err(e),
            Ok(s) => {
                let di = biject[k - 1];
                if 0 <= di < dirs.len() {
                    Ok(s.push(spec_join(dirs[di as int], base[k - 1])))
                } else {
                    Err(
                        RpmErrorView::InvalidTagIndex {
                            tag: IndexTag::RPMTAG_DIRINDEXES.spec_name(),
                            index: as_unsigned32(di),
                            bound: spec_bound32(dirs.len() as int),
                        },
                    )
                }
            },
        }
    }
}

/// The reconstructed file paths of a header, or the error of the first
/// lookup or directory index that fails. As many paths are built as the
/// shorter of the base-name and directory-index lists allows.
pub open spec fn spec_file_names(h: HeaderView<IndexTag>) -> Result<Seq<Seq<char>>, RpmErrorView> {
    match spec_get_string_array(h, IndexTag::RPMTAG_BASENAMES) {
        Err(e) => Err(e),
        Ok(base) => match spec_get_i32_array(h, IndexTag::RPMTAG_DIRINDEXES) {
            Err(e) => Err(e),
            Ok(biject) => match spec_get_string_array(h, IndexTag::RPMTAG_DIRNAMES) {
                Err(e) => Err(e),
                Ok(dirs) => {
                    let m = if base.len() <= biject.len() {
                        base.len() as int
                    } else {
                        biject.len() as int
                    };
                    spec_join_upto(base, biject, dirs, m)
                },
            },
        },
    }
}

/// Once the paths up to `i` join and index `i` is out of range, every
/// longer prefix fails with index `i`'s error.
proof fn lemma_join_upto_err(
    base: Seq<Seq<char>>,
    biject: Seq<i32>,
    dirs: Seq<Seq<char>>,
    i: int,
    k: int,
)
    requires
        0 <= i < k,
        spec_join_upto(base, biject, dirs, i) is Ok,
        !(0 <= biject[i] < dirs.len()),
    ensures
        spec_join_upto(base, biject, dirs, k) == Err::<Seq<Seq<char>>, RpmErrorView>(
            RpmErrorView::InvalidTagIndex {
                tag: IndexTag::RPMTAG_DIRINDEXES.spec_name(),
                index: as_unsigned32(biject[i]),
                bound: spec_bound32(dirs.len() as int),
            },
        ),
    decreases k,
{
    if k == i + 1 {
    } else {
        lemma_join_upto_err(base, biject, dirs, i, k - 1);
    }
}

/// Joins one directory with one base name.
fn join_path(dir: &String, base: &String) -> (r: String)
    ensures
        r@ == spec_join(dir@, base@),
{
    proof {
        reveal_strlit("/");
    }
    let blen = base.as_str().unicode_len();
    if blen > 0 && base.as_str().get_char(0) == '/' {
        return base.clone();
    }
    let dlen = dir.as_str().unicode_len();
    if dlen == 0 {
        return base.clone();
    }
    let mut joined = dir.clone();
    if dir.as_str().get_char(dlen - 1) != '/' {
        joined.append("/");
        proof {
            assert("/"@ =~= seq!['/']);
        }
    }
    joined.append(base.as_str());
    proof {
        assert(joined@ =~= spec_join(dir@, base@));
    }
    joined
}

impl Header<IndexTag> {
    /// The payload format string.
    pub fn get_payload_format(&self) -> (r: Result<&str, RpmError>)
        ensures
            match spec_get_string(self@, IndexTag::RPMTAG_PAYLOADFORMAT) {
                Ok(v) => r matches Ok(x) && x@ == v,
                Err(err) => r matches Err(e) && e@ == err,
            },
    {
        self.get_entry_string_data(IndexTag::RPMTAG_PAYLOADFORMAT)
    }

    /// The payload compressor string.
    pub fn get_payload_compressor(&self) -> (r: Result<&str, RpmError>)
        ensures
            match spec_get_string(self@, IndexTag::RPMTAG_PAYLOADCOMPRESSOR) {
                Ok(v) => r matches Ok(x) && x@ == v,
                Err(err) => r matches Err(e) && e@ == err,
            },
    {
        self.get_entry_string_data(IndexTag::RPMTAG_PAYLOADCOMPRESSOR)
    }

    /// The per-file digest strings.
    pub fn get_file_checksums(&self) -> (r: Result<&[String], RpmError>)
        ensures
            match spec_get_string_array(self@, IndexTag::RPMTAG_FILEDIGESTS) {
                Ok(v) => r matches Ok(x) && strs_view(x@) == v,
                Err(err) => r matches Err(e) && e@ == err,
            },
    {
        self.get_entry_string_array_data(IndexTag::RPMTAG_FILEDIGESTS)
    }

    /// The package name.
    pub fn get_name(&self) -> (r: Result<&str, RpmError>)
        ensures
            match spec_get_string(self@, IndexTag::RPMTAG_NAME) {
                Ok(v) => r matches Ok(x) && x@ == v,
                Err(err) => r matches Err(e) && e@ == err,
            },
    {
        self.get_entry_string_data(IndexTag::RPMTAG_NAME)
    }

    /// The package epoch.
    pub fn get_epoch(&self) -> (r: Result<i32, RpmError>)
        ensures
            match spec_get_i32(self@, IndexTag::RPMTAG_EPOCH) {
                Ok(v) => r == Ok::<i32, RpmError>(v),
                Err(err) => r matches Err(e) && e@ == err,
            },
    {
        self.get_entry_i32_data(IndexTag::RPMTAG_EPOCH)
    }

    /// The package version.
    pub fn get_version(&self) -> (r: Result<&str, RpmError>)
        ensures
            match spec_get_string(self@, IndexTag::RPMTAG_VERSION) {
                Ok(v) => r matches Ok(x) && x@ == v,
                Err(err) => r matches Err(e) && e@ == err,
            },
    {
        self.get_entry_string_data(IndexTag::RPMTAG_VERSION)
    }

    /// The package release.
    pub fn get_release(&self) -> (r: Result<&str, RpmError>)
        ensures
            match spec_get_string(self@, IndexTag::RPMTAG_RELEASE) {
                Ok(v) => r matches Ok(x) && x@ == v,
                Err(err) => r matches Err(e) && e@ == err,
            },
    {
        self.get_entry_string_data(IndexTag::RPMTAG_RELEASE)
    }

    /// The package architecture.
    pub fn get_arch(&self) -> (r: Result<&str, RpmError>)
        ensures
            match spec_get_string(self@, IndexTag::RPMTAG_ARCH) {
                Ok(v) => r matches Ok(x) && x@ == v,
                Err(err) => r matches Err(e) && e@ == err,
            },
    {
        self.get_entry_string_data(IndexTag::RPMTAG_ARCH)
    }

    /// The installation time.
    pub fn get_install_time(&self) -> (r: Result<i64, RpmError>)
        ensures
            match spec_get_i64(self@, IndexTag::RPMTAG_INSTALLTIME) {
                Ok(v) => r == Ok::<i64, RpmError>(v),
                Err(err) => r matches Err(e) && e@ == err,
            },
    {
        self.get_entry_i64_data(IndexTag::RPMTAG_INSTALLTIME)
    }

    /// Reconstructs the full file paths: for each position, the directory
    /// named by the directory index joined with the base name.
    #[verifier::loop_isolation(false)]
    pub fn get_file_names(&self) -> (r: Result<Vec<String>, RpmError>)
        ensures
            match spec_file_names(self@) {
                Ok(v) => r matches Ok(x) && strs_view(x@) == v,
                Err(err) => r matches Err(e) && e@ == err,
            },
    {
        let base = match self.get_entry_string_array_data(IndexTag::RPMTAG_BASENAMES) {
            Ok(b) => b,
            Err(e) => {
                return Err(e);
            },
        };
        let biject = match self.get_entry_i32_array_data(IndexTag::RPMTAG_DIRINDEXES) {
            Ok(b) => b,
            Err(e) => {
                return Err(e);
            },
        };
        let dirs = match self.get_entry_string_array_data(IndexTag::RPMTAG_DIRNAMES) {
            Ok(d) => d,
            Err(e) => {
                return Err(e);
            },
        };
        let n = dirs.len();
        let m = if base.len() <= biject.len() {
            base.len()
        } else {
            biject.len()
        };
        let mut out: Vec<String> = Vec::new();
        proof {
            assert(strs_view(out@) =~= Seq::<Seq<char>>::empty());
        }
        let mut i: usize = 0;
        while i < m
            invariant
                i <= m,
                spec_join_upto(strs_view(base@), biject@, strs_view(dirs@), i as int) == Ok::<
                    Seq<Seq<char>>,
                    RpmErrorView,
                >(strs_view(out@)),
            decreases m - i,
        {
            let di = biject[i];
            if di < 0 || di as usize >= n {
                proof {
                    lemma_join_upto_err(strs_view(base@), biject@, strs_view(dirs@), i as int, m as int);
                }
                let bound: u32 = (((n as u64) % 0x100000000) as u32);
                return Err(
                    RpmError::InvalidTagIndex {
                        tag: IndexTag::RPMTAG_DIRINDEXES.name(),
                        index: crate::bytes::unsigned32(di),
                        bound,
                    },
                );
            }
            let s = join_path(&dirs[di as usize], &base[i]);
            let ghost prev = strs_view(out@);
            out.push(s);
            proof {
                assert(strs_view(out@) =~= prev.push(out@.last()@));
            }
            i = i + 1;
        }
        Ok(out)
    }
}

} // verus!
