use vstd::prelude::*;
use crate::errors::{AppError, error_message};

verus! {

/// Whether `lettre` reads a text as a mailbox (`Mailbox::from_str`): an address, with or
/// without a display name.
pub uninterp spec fn lettre_mailbox_parses(text: Seq<char>) -> bool;

/// Calls `lettre::message::Mailbox::from_str`; whether it succeeds is a function of the
/// text, named `lettre_mailbox_parses`.
#[verifier::external_body]
fn mailbox_parses(text: &str) -> (r: bool)
    ensures
        r == lettre_mailbox_parses(text@),
{
    text.parse::<::lettre::message::Mailbox>().is_ok()
}

/// Checks the addresses of an e-mail before it is built: a sender that is not a mailbox
/// is an internal error (the service is misconfigured), a recipient that is not one is a
/// bad request; the sender is checked first.
pub fn check_email_addresses(from: &str, to: &str) -> (r: Result<(), AppError>)
    ensures
        !lettre_mailbox_parses(from@) ==> (r matches Err(e) && e is Internal && error_message(e)
            == "Formato de remetente SMTP inválido"@),
        lettre_mailbox_parses(from@) && !lettre_mailbox_parses(to@) ==> (r matches Err(e) && e is BadRequest
            && error_message(e) == "Formato de destinatário inválido"@),
        lettre_mailbox_parses(from@) && lettre_mailbox_parses(to@) ==> r is Ok,
{
    if !mailbox_parses(from) {
        return Err(AppError::Internal(String::from_str("Formato de remetente SMTP inválido")));
    }
    if !mailbox_parses(to) {
        return Err(AppError::BadRequest(String::from_str("Formato de destinatário inválido")));
    }
    Ok(())
}

/// Sends e-mail.
pub trait EmailService {
    fn send_email(&self, to: &str, subject: &str, body: &str) -> Result<(), AppError>;
}

/// An e-mail service that sends nothing and always succeeds.
#[derive(Debug, Clone, Copy)]
pub struct MockEmailService;

impl EmailService for MockEmailService {
    fn send_email(&self, to: &str, subject: &str, body: &str) -> (r: Result<(), AppError>)
        ensures
            r is Ok,
    {
        Ok(())
    }
}

} // verus!
