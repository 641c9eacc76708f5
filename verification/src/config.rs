//! Startup configuration: the parsed size limit and the validity checks that
//! precede any I/O.
use vstd::prelude::*;

verus! {

/// The byte count that the size-limit string denotes, for a given
/// bits-versus-bytes flag: a function of the two arguments alone, `None` when
/// the string is not a well-formed byte count (or is too large for a `u64`).
pub uninterp spec fn parsed_size(s: Seq<char>, b_is_bits: bool) -> Option<u64>;

/// Relies on `byte_unit::Byte::parse_str` and `Byte::as_u64`: the parsed byte
/// count depends on the string and the flag alone; parsing a malformed string
/// fails rather than panics.
#[verifier::external_body]
fn parse_size(s: &str, b_is_bits: bool) -> (r: Option<u64>)
    ensures
        r == parsed_size(s@, b_is_bits),
{
    match byte_unit::Byte::parse_str(s, b_is_bits) {
        Ok(b) => Some(b.as_u64()),
        Err(_) => None,
    }
}

/// Why a configuration is rejected at startup.
#[derive(PartialEq, Eq, Structural, Debug, Clone, Copy)]
pub enum ConfigError {
    /// The size-limit string is not a well-formed byte count.
    BadSizeLimit,
    /// The rotation count is zero: there is no slot to write into.
    ZeroRotate,
}

/// The process configuration, immutable for the process lifetime.
#[derive(Debug)]
pub struct Config {
    /// The primary file path.
    pub file_path: String,
    /// The size limit in bytes; reaching or exceeding it triggers rotation.
    pub file_sz_lim: u64,
    /// The rotation count: retained slots plus the active file. At least 1.
    pub num_rotate: u16,
    /// Whether input is echoed to the output stream as well.
    pub tee: bool,
}

impl Config {
    /// A valid configuration has at least one file to write into.
    pub open spec fn wf(self) -> bool {
        self.num_rotate >= 1
    }

    /// Validate and build the configuration, before any I/O: the size-limit
    /// string must parse to a byte count and the rotation count must be at
    /// least 1. Each rejected input gets its own error; a malformed size
    /// string is reported first.
    pub fn new(
        file_path: String,
        file_sz_lim: &str,
        num_rotate: u16,
        b_is_bits: bool,
        tee: bool,
    ) -> (r: Result<Config, ConfigError>)
        ensures
            r is Ok <==> (parsed_size(file_sz_lim@, b_is_bits) is Some && num_rotate >= 1),
            parsed_size(file_sz_lim@, b_is_bits) is None ==> r == Err::<Config, ConfigError>(
                ConfigError::BadSizeLimit,
            ),
            parsed_size(file_sz_lim@, b_is_bits) is Some && num_rotate == 0 ==> r == Err::<
                Config,
                ConfigError,
            >(ConfigError::ZeroRotate),
            r is Ok ==> ({
                let c = r->Ok_0;
                &&& c.file_path@ == file_path@
                &&& Some(c.file_sz_lim) == parsed_size(file_sz_lim@, b_is_bits)
                &&& c.num_rotate == num_rotate
                &&& c.tee == tee
                &&& c.wf()
            }),
    {
        let lim = match parse_size(file_sz_lim, b_is_bits) {
            Some(l) => l,
            None => {
                return Err(ConfigError::BadSizeLimit);
            },
        };
        if num_rotate == 0 {
            return Err(ConfigError::ZeroRotate);
        }
        Ok(Config { file_path, file_sz_lim: lim, num_rotate, tee })
    }
}

} // verus!
