use vstd::prelude::*;
use vstd::string::*;
use crate::text::{concat_str, decimal, decimal_string};

verus! {

/// Process priority classes, each standing for one Windows priority class constant:
/// Idle 0x40, BelowNormal 0x4000, Normal 0x20, AboveNormal 0x8000, High 0x80,
/// Realtime 0x100.
#[derive(Debug, Clone, Copy, PartialEq, Eq, Structural)]
pub enum PriorityClass {
    Idle,
    BelowNormal,
    Normal,
    AboveNormal,
    High,
    Realtime,
}

/// The Windows constant of a priority class.
pub open spec fn class_value(p: PriorityClass) -> u32 {
    match p {
        PriorityClass::Idle => 0x40,
        PriorityClass::BelowNormal => 0x4000,
        PriorityClass::Normal => 0x20,
        PriorityClass::AboveNormal => 0x8000,
        PriorityClass::High => 0x80,
        PriorityClass::Realtime => 0x100,
    }
}

/// The priority class whose Windows constant is `value`, if there is one.
pub open spec fn class_of_value(value: u32) -> Option<PriorityClass> {
    if value == 0x40 {
        Some(PriorityClass::Idle)
    } else if value == 0x4000 {
        Some(PriorityClass::BelowNormal)
    } else if value == 0x20 {
        Some(PriorityClass::Normal)
    } else if value == 0x8000 {
        Some(PriorityClass::AboveNormal)
    } else if value == 0x80 {
        Some(PriorityClass::High)
    } else if value == 0x100 {
        Some(PriorityClass::Realtime)
    } else {
        None
    }
}

/// The human-readable name of a priority class.
pub open spec fn class_name(p: PriorityClass) -> Seq<char> {
    match p {
        PriorityClass::Idle => "Idle"@,
        PriorityClass::BelowNormal => "Below Normal"@,
        PriorityClass::Normal => "Normal"@,
        PriorityClass::AboveNormal => "Above Normal"@,
        PriorityClass::High => "High"@,
        PriorityClass::Realtime => "Realtime"@,
    }
}

impl PriorityClass {
    /// Converts a Windows priority class constant; `None` for a value that is none of
    /// the six constants.
    pub fn from_u32(value: u32) -> (r: Option<PriorityClass>)
        ensures
            r == class_of_value(value),
    {
        if value == 0x40 {
            Some(PriorityClass::Idle)
        } else if value == 0x4000 {
            Some(PriorityClass::BelowNormal)
        } else if value == 0x20 {
            Some(PriorityClass::Normal)
        } else if value == 0x8000 {
            Some(PriorityClass::AboveNormal)
        } else if value == 0x80 {
            Some(PriorityClass::High)
        } else if value == 0x100 {
            Some(PriorityClass::Realtime)
        } else {
            None
        }
    }

    /// The Windows priority class constant of this class.
    pub fn value(&self) -> (v: u32)
        ensures
            v == class_value(*self),
    {
        match self {
            PriorityClass::Idle => 0x40,
            PriorityClass::BelowNormal => 0x4000,
            PriorityClass::Normal => 0x20,
            PriorityClass::AboveNormal => 0x8000,
            PriorityClass::High => 0x80,
            PriorityClass::Realtime => 0x100,
        }
    }

    /// Human-readable name of the priority class.
    pub fn as_str(&self) -> (s: &'static str)
        ensures
            s@ == class_name(*self),
    {
        match self {
            PriorityClass::Idle => "Idle",
            PriorityClass::BelowNormal => "Below Normal",
            PriorityClass::Normal => "Normal",
            PriorityClass::AboveNormal => "Above Normal",
            PriorityClass::High => "High",
            PriorityClass::Realtime => "Realtime",
        }
    }
}

impl Default for PriorityClass {
    fn default() -> (r: Self)
        ensures
            r == PriorityClass::Normal,
    {
        PriorityClass::Normal
    }
}

/// Converting a class to its Windows constant and back gives the class again, and a
/// constant that converts to a class is that class's constant.
pub proof fn lemma_priority_value_round_trip(p: PriorityClass, value: u32)
    ensures
        class_of_value(class_value(p)) == Some(p),
        class_of_value(value) == Some(p) ==> class_value(p) == value,
{
}

/// Errors of the optimizer's operations.
#[derive(Debug)]
pub enum EndlessOptError {
    /// A Windows API operation failed.
    WindowsApi(String),
    /// An operation on a process failed.
    Process { pid: u32, name: Option<String>, operation: String, details: String },
    /// A file system operation failed.
    FileSystem { path: String, operation: String, details: String },
    /// A configuration error.
    Config(String),
    /// Permission denied.
    PermissionDenied(String),
    /// Invalid input.
    InvalidInput(String),
    /// An operation on a protected process was refused.
    ProtectedProcess(String),
}

/// The value of an `EndlessOptError`, its strings taken by their characters.
pub enum ErrorView {
    WindowsApi(Seq<char>),
    Process { pid: u32, name: Option<Seq<char>>, operation: Seq<char>, details: Seq<char> },
    FileSystem { path: Seq<char>, operation: Seq<char>, details: Seq<char> },
    Config(Seq<char>),
    PermissionDenied(Seq<char>),
    InvalidInput(Seq<char>),
    ProtectedProcess(Seq<char>),
}

impl View for EndlessOptError {
    type V = ErrorView;

    open spec fn view(&self) -> ErrorView {
        match self {
            EndlessOptError::WindowsApi(m) => ErrorView::WindowsApi(m@),
            EndlessOptError::Process { pid, name, operation, details } => ErrorView::Process {
                pid: *pid,
                name: match name {
                    Some(n) => Some(n@),
                    None => None,
                },
                operation: operation@,
                details: details@,
            },
            EndlessOptError::FileSystem { path, operation, details } => ErrorView::FileSystem {
                path: path@,
                operation: operation@,
                details: details@,
            },
            EndlessOptError::Config(m) => ErrorView::Config(m@),
            EndlessOptError::PermissionDenied(m) => ErrorView::PermissionDenied(m@),
            EndlessOptError::InvalidInput(m) => ErrorView::InvalidInput(m@),
            EndlessOptError::ProtectedProcess(m) => ErrorView::ProtectedProcess(m@),
        }
    }
}

/// The text an error is displayed as.
pub open spec fn error_message(e: ErrorView) -> Seq<char> {
    match e {
        ErrorView::WindowsApi(m) => "Windows API error: "@ + m,
        ErrorView::Process { pid, name, operation, details } => match name {
            Some(n) => "Process operation failed: "@ + operation + " (PID: "@ + decimal(pid as nat)
                + ", name: "@ + n + "): "@ + details,
            None => "Process operation failed: "@ + operation + " (PID: "@ + decimal(pid as nat)
                + "): "@ + details,
        },
        ErrorView::FileSystem { path, operation, details } => "File system error: "@ + operation
            + " (path: "@ + path + "): "@ + details,
        ErrorView::Config(m) => "Configuration error: "@ + m,
        ErrorView::PermissionDenied(m) => "Permission denied: "@ + m,
        ErrorView::InvalidInput(m) => "Invalid input: "@ + m,
        ErrorView::ProtectedProcess(m) => "Protected process: "@ + m,
    }
}

/// The view of a result whose error is an `EndlessOptError`.
pub open spec fn result_view<T>(r: Result<T, EndlessOptError>) -> Result<T, ErrorView> {
    match r {
        Ok(v) => Ok(v),
        Err(e) => Err(e@),
    }
}

impl EndlessOptError {
    /// The message this error is displayed as.
    pub fn to_string(&self) -> (s: String)
        ensures
            s@ == error_message(self@),
    {
        match self {
            EndlessOptError::WindowsApi(m) => concat_str(
                String::from_str("Windows API error: "),
                m.as_str(),
            ),
            EndlessOptError::Process { pid, name, operation, details } => {
                let mut s = String::from_str("Process operation failed: ");
                s.append(operation.as_str());
                s.append(" (PID: ");
                let p = decimal_string(*pid as u64);
                s.append(p.as_str());
                match name {
                    Some(n) => {
                        s.append(", name: ");
                        s.append(n.as_str());
                    },
                    None => {},
                }
                s.append("): ");
                s.append(details.as_str());
                s
            },
            EndlessOptError::FileSystem { path, operation, details } => {
                let mut s = String::from_str("File system error: ");
                s.append(operation.as_str());
                s.append(" (path: ");
                s.append(path.as_str());
                s.append("): ");
                s.append(details.as_str());
                s
            },
            EndlessOptError::Config(m) => concat_str(
                String::from_str("Configuration error: "),
                m.as_str(),
            ),
            EndlessOptError::PermissionDenied(m) => concat_str(
                String::from_str("Permission denied: "),
                m.as_str(),
            ),
            EndlessOptError::InvalidInput(m) => concat_str(
                String::from_str("Invalid input: "),
                m.as_str(),
            ),
            EndlessOptError::ProtectedProcess(m) => concat_str(
                String::from_str("Protected process: "),
                m.as_str(),
            ),
        }
    }
}

} // verus!
