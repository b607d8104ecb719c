//! The service's fault kinds and the error record reported for each.
use vstd::prelude::*;
use crate::history::HistoryError;
use crate::numeric::NumericError;

verus! {

/// What went wrong while answering a request.
#[derive(Debug, Clone)]
pub enum ErrorKind {
    /// The index could not be read, even after retrying: worth asking again.
    DBError(String),
    InvalidInput(String),
    InternalError(String),
    NotImplemented(String),
    /// No record exists for what was asked: an answer, not a fault.
    NotFound(String),
    /// The stored data is inconsistent or unreadable: asking again cannot help.
    DataIntegrity(String),
}

/// The error record sent back to a caller.
#[derive(Debug, Clone)]
pub struct Error {
    /// Network-specific code, close to an HTTP status.
    pub code: u32,
    pub message: String,
    /// Whether the same request may succeed if sent again.
    pub retriable: bool,
}

pub open spec fn kind_code(k: ErrorKind) -> u32 {
    match k {
        ErrorKind::InvalidInput(_) => 400,
        ErrorKind::NotFound(_) => 404,
        _ => 500,
    }
}

pub open spec fn kind_retriable(k: ErrorKind) -> bool {
    !(k is InvalidInput || k is NotFound || k is DataIntegrity)
}

pub open spec fn kind_prefix(k: ErrorKind) -> Seq<char> {
    match k {
        ErrorKind::DBError(_) => "DB Error: "@,
        ErrorKind::InvalidInput(_) => "Invalid Input: "@,
        ErrorKind::InternalError(_) => "Internal Error: "@,
        ErrorKind::NotImplemented(_) => "Sorry! Please wait a bit, we are working on that: "@,
        ErrorKind::NotFound(_) => "Not Found: "@,
        ErrorKind::DataIntegrity(_) => "Data Integrity Error: "@,
    }
}

pub open spec fn kind_detail(k: ErrorKind) -> Seq<char> {
    match k {
        ErrorKind::DBError(m) => m@,
        ErrorKind::InvalidInput(m) => m@,
        ErrorKind::InternalError(m) => m@,
        ErrorKind::NotImplemented(m) => m@,
        ErrorKind::NotFound(m) => m@,
        ErrorKind::DataIntegrity(m) => m@,
    }
}

impl Error {
    /// The record for a fault kind: its code, whether a retry may help, and
    /// its message under the kind's heading.
    pub fn from_error_kind(err: ErrorKind) -> (r: Error)
        ensures
            r.code == kind_code(err),
            r.retriable == kind_retriable(err),
            r.message@ == kind_prefix(err) + kind_detail(err),
    {
        match err {
            ErrorKind::DBError(message) => Error {
                code: 500,
                message: String::from_str("DB Error: ").concat(message.as_str()),
                retriable: true,
            },
            ErrorKind::InvalidInput(message) => Error {
                code: 400,
                message: String::from_str("Invalid Input: ").concat(message.as_str()),
                retriable: false,
            },
            ErrorKind::InternalError(message) => Error {
                code: 500,
                message: String::from_str("Internal Error: ").concat(message.as_str()),
                retriable: true,
            },
            ErrorKind::NotImplemented(message) => Error {
                code: 500,
                message: String::from_str(
                    "Sorry! Please wait a bit, we are working on that: ",
                ).concat(message.as_str()),
                retriable: true,
            },
            ErrorKind::NotFound(message) => Error {
                code: 404,
                message: String::from_str("Not Found: ").concat(message.as_str()),
                retriable: false,
            },
            ErrorKind::DataIntegrity(message) => Error {
                code: 500,
                message: String::from_str("Data Integrity Error: ").concat(message.as_str()),
                retriable: false,
            },
        }
    }

    /// Renders the record as `Error #<code>[ (retriable)]: <message>`.
    pub fn to_text(&self) -> (r: String)
        ensures
            r@ == "Error #"@ + decimal_text(self.code as nat) + (if self.retriable {
                " (retriable)"@
            } else {
                ""@
            }) + ": "@ + self.message@,
    {
        let mut s = String::from_str("Error #");
        let digits = u32_text(self.code);
        s = s.concat(digits.as_str());
        if self.retriable {
            s = s.concat(" (retriable)");
        }
        s = s.concat(": ");
        let r = s.concat(self.message.as_str());
        proof {
            reveal_strlit("");
            let tag = if self.retriable { " (retriable)"@ } else { ""@ };
            assert(r@ =~= "Error #"@ + decimal_text(self.code as nat) + tag + ": "@ + self.message@);
        }
        r
    }
}

pub open spec fn digit_char(d: nat) -> char {
    if d == 0 { '0' } else if d == 1 { '1' } else if d == 2 { '2' } else if d == 3 { '3' }
    else if d == 4 { '4' } else if d == 5 { '5' } else if d == 6 { '6' } else if d == 7 { '7' }
    else if d == 8 { '8' } else { '9' }
}

/// The shortest decimal text of a number.
pub open spec fn decimal_text(v: nat) -> Seq<char>
    decreases v,
{
    if v < 10 {
        seq![digit_char(v)]
    } else {
        decimal_text(v / 10) + seq![digit_char(v % 10)]
    }
}

fn digit_text(d: u32) -> (r: &'static str)
    requires
        d < 10,
    ensures
        r@ == seq![digit_char(d as nat)],
{
    proof {
        reveal_strlit("0");
        reveal_strlit("1");
        reveal_strlit("2");
        reveal_strlit("3");
        reveal_strlit("4");
        reveal_strlit("5");
        reveal_strlit("6");
        reveal_strlit("7");
        reveal_strlit("8");
        reveal_strlit("9");
    }
    let r = if d == 0 { "0" } else if d == 1 { "1" } else if d == 2 { "2" } else if d == 3 { "3" }
    else if d == 4 { "4" } else if d == 5 { "5" } else if d == 6 { "6" } else if d == 7 { "7" }
    else if d == 8 { "8" } else { "9" };
    assert(r@ =~= seq![digit_char(d as nat)]);
    r
}

fn u32_text(v: u32) -> (r: String)
    ensures
        r@ == decimal_text(v as nat),
    decreases v,
{
    let last = digit_text(v % 10);
    if v < 10 {
        String::from_str(last)
    } else {
        u32_text(v / 10).concat(last)
    }
}

/// The detail text for a failed reconstruction of `account`'s history of the
/// token issued by `contract`.
pub open spec fn history_detail(e: HistoryError, account: Seq<char>, contract: Seq<char>) -> Seq<char> {
    let head = match e {
        HistoryError::DataFormat => "Amount out of range: account "@,
        HistoryError::NotInvolved => "Event does not name the account: account "@,
        HistoryError::InvalidAccountId => "Malformed account ID in an event: account "@,
        HistoryError::NegativeBalance => "Balance could not be negative: account "@,
        HistoryError::Reconciliation => "We have found the money from nowhere for account "@,
    };
    head + account + ", contract "@ + contract
}

impl HistoryError {
    /// The fault kind reported for this failure: always a fault of the indexed
    /// data, which a retry cannot mend, never the caller's.
    pub fn to_error_kind(&self, account: &String, contract: &String) -> (r: ErrorKind)
        ensures
            r is DataIntegrity,
            kind_detail(r) == history_detail(*self, account@, contract@),
    {
        let head = match self {
            HistoryError::DataFormat => "Amount out of range: account ",
            HistoryError::NotInvolved => "Event does not name the account: account ",
            HistoryError::InvalidAccountId => "Malformed account ID in an event: account ",
            HistoryError::NegativeBalance => "Balance could not be negative: account ",
            HistoryError::Reconciliation => "We have found the money from nowhere for account ",
        };
        let m = String::from_str(head).concat(account.as_str()).concat(", contract ").concat(
            contract.as_str(),
        );
        ErrorKind::DataIntegrity(m)
    }
}

/// The detail text for a stored number that cannot be read.
pub open spec fn numeric_detail(e: NumericError) -> Seq<char> {
    match e {
        NumericError::NotANumber => "stored value is not a number"@,
        NumericError::OutOfRange => "stored value is out of range"@,
    }
}

impl NumericError {
    /// The fault kind reported when a stored number cannot be read: a fault
    /// of the stored data, which a retry cannot mend.
    pub fn to_error_kind(&self) -> (r: ErrorKind)
        ensures
            r is DataIntegrity,
            kind_detail(r) == numeric_detail(*self),
    {
        match self {
            NumericError::NotANumber => ErrorKind::DataIntegrity(
                String::from_str("stored value is not a number"),
            ),
            NumericError::OutOfRange => ErrorKind::DataIntegrity(
                String::from_str("stored value is out of range"),
            ),
        }
    }
}

} // verus!
