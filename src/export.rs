use vstd::prelude::*;
use vstd::string::*;
use crate::session::Session;

verus! {

/// The `YYYYMMDD-HHMMSS` text that chrono formats for a UTC time given in
/// microseconds since the Unix epoch, if chrono can represent the time.
pub uninterp spec fn utc_stamp_of(micros: i64) -> Option<Seq<char>>;

/// Relies on `chrono::DateTime::from_timestamp_micros` and `format` with
/// `%Y%m%d-%H%M%S`: the text depends on the time alone.
#[verifier::external_body]
fn utc_stamp(micros: i64) -> (r: Option<String>)
    ensures
        match r {
            Some(s) => utc_stamp_of(micros) == Some(s@),
            None => utc_stamp_of(micros) is None,
        },
{
    chrono::DateTime::from_timestamp_micros(micros).map(|t| t.format("%Y%m%d-%H%M%S").to_string())
}

/// `ttl-{target}-{stamp}.json`.
pub open spec fn export_name(target: Seq<char>, stamp: Seq<char>) -> Seq<char> {
    "ttl-"@ + target + "-"@ + stamp + ".json"@
}

/// The export file name for a target as typed and a start-time stamp.
pub fn export_file_name(target: &str, stamp: &str) -> (r: String)
    ensures
        r@ == export_name(target@, stamp@),
{
    let mut name = String::from_str("ttl-");
    name.append(target);
    name.append("-");
    name.append(stamp);
    name.append(".json");
    name
}

impl Session {
    /// The file name an automatic export uses, from the target as typed and
    /// the start time; none if the start time cannot be formatted.
    pub fn export_file_name(&self) -> (r: Option<String>)
        ensures
            match utc_stamp_of(self.started_at) {
                Some(stamp) => r matches Some(name) && name@ == export_name(self.target.original@, stamp),
                None => r is None,
            },
    {
        match utc_stamp(self.started_at) {
            Some(stamp) => Some(export_file_name(self.target.original.as_str(), stamp.as_str())),
            None => None,
        }
    }
}

} // verus!
