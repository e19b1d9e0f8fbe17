//! Security toolkit built around a request-guarding core: an address
//! classifier, a resolution gate and a request rewriter that together block
//! server-side request forgery and DNS-rebinding attacks, plus a filename
//! sanitizer and the pure decision rules of the project scanner.

pub mod addr;
pub mod chars;
pub mod init;
pub mod net_guard;
pub mod scan;
pub mod text_guard;
