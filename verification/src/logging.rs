use vstd::prelude::*;
use vstd::string::StringExecFns;

verus! {

broadcast use vstd::string::group_string_axioms;

/// One line of the log: `[timestamp] [level] [thread] message` and a newline.
pub open spec fn ligne(horodatage: Seq<char>, niveau: Seq<char>, fil: Seq<char>, message: Seq<char>) -> Seq<char> {
    "["@ + horodatage + "] ["@ + niveau + "] ["@ + fil + "] "@ + message + "\n"@
}

/// The log line of an entry; the thread name is `worker` when the thread
/// has none.
pub fn log_entry(horodatage: &str, niveau: &str, fil: Option<&str>, message: &str) -> (r: String)
    ensures
        r@ == ligne(horodatage@, niveau@, match fil { Some(f) => f@, None => "worker"@ }, message@),
{
    let f = match fil { Some(f) => f, None => "worker" };
    let mut r = String::from_str("[");
    r.append(horodatage);
    r.append("] [");
    r.append(niveau);
    r.append("] [");
    r.append(f);
    r.append("] ");
    r.append(message);
    r.append("\n");
    r
}

/// The log line of an information message.
pub fn log_info(horodatage: &str, fil: Option<&str>, msg: &str) -> (r: String)
    ensures
        r@ == ligne(horodatage@, "INFO"@, match fil { Some(f) => f@, None => "worker"@ }, msg@),
{
    log_entry(horodatage, "INFO", fil, msg)
}

/// The log line of a warning.
pub fn log_warn(horodatage: &str, fil: Option<&str>, msg: &str) -> (r: String)
    ensures
        r@ == ligne(horodatage@, "WARN"@, match fil { Some(f) => f@, None => "worker"@ }, msg@),
{
    log_entry(horodatage, "WARN", fil, msg)
}

/// The log line of an error.
pub fn log_error(horodatage: &str, fil: Option<&str>, msg: &str) -> (r: String)
    ensures
        r@ == ligne(horodatage@, "ERROR"@, match fil { Some(f) => f@, None => "worker"@ }, msg@),
{
    log_entry(horodatage, "ERROR", fil, msg)
}

} // verus!
