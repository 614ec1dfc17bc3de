//! The injection-safe escaping layer, on the interpreter's own quote and
//! escape characters.
use hvctrl::hyperv::{escape_pwsh, pwsh_escape};

#[test]
fn test_escape_pwsh() {
    assert_eq!("''''''''", escape_pwsh("'''"));
    assert_eq!("'MSEdge - Win10'", escape_pwsh("MSEdge - Win10"));
    assert_eq!("'\"MSEdge - Win10\"'", escape_pwsh("\"MSEdge - Win10\""));
    assert_eq!(
        "'MSEdge - Win10'';calc.exe #'",
        escape_pwsh("MSEdge - Win10';calc.exe #")
    );
    assert_eq!("'MSEdge - Win10`'", escape_pwsh("MSEdge - Win10`"));
    assert_eq!("'MSEdge - $a`'", escape_pwsh("MSEdge - $a`"));
}

#[test]
fn test_pwsh_escape() {
    assert_eq!("\"MSEdge - Win10\"", pwsh_escape("MSEdge - Win10"));
    assert_eq!("\"`\"MSEdge - Win10`\"\"", pwsh_escape("\"MSEdge - Win10\""));
    assert_eq!(
        "\"MSEdge - Win10`\";calc.exe #\"",
        pwsh_escape("MSEdge - Win10\";calc.exe #")
    );
    assert_eq!("\"MSEdge - Win10``\"", pwsh_escape("MSEdge - Win10`"));
}

#[test]
fn escape_pwsh_empty_string() {
    assert_eq!("''", escape_pwsh(""));
}

#[test]
fn pwsh_escape_empty_string() {
    assert_eq!("\"\"", pwsh_escape(""));
}
