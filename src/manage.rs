use vstd::prelude::*;
use crate::crypto::{decodable, decodes_to, flattened, EncryptionType};
use crate::form::{no_errors, FormData};

verus! {

/// Failure reported by the HTTP layer.
#[derive(Clone, Debug, PartialEq, Eq)]
pub enum RequestError {
    /// The server refused the credentials sent with the request.
    Unauthorized,
    /// A transport failure or an error reply, with its description.
    Other { message: String },
}

/// What the page does with the settings it fetched.
#[derive(Clone, Debug, PartialEq, Eq)]
pub enum LoadOutcome {
    /// The form now holds the fetched settings.
    Populated,
    /// The session has expired: go to the login page.
    RedirectToLogin,
    /// Show the failure as an alert.
    ShowError(RequestError),
}

/// What the page tells the user once a save has completed.
#[derive(Clone, Debug, PartialEq, Eq)]
pub enum SaveNotice {
    /// Encryption was switched on or changed.
    Enabled,
    /// Encryption was switched off.
    Disabled,
    /// The password given to confirm the change was wrong.
    IncorrectPassword,
    /// Any other failure, shown as a generic alert.
    Failed(RequestError),
}

/// Writes fetched settings into the form, or says how to recover from the
/// failure to fetch them.
pub fn load_settings(form: &mut FormData, fetched: Result<EncryptionType, RequestError>) -> (r:
    LoadOutcome)
    requires
        old(form).wf(),
    ensures
        final(form).wf(),
        match fetched {
            Ok(p) => r == LoadOutcome::Populated && final(form)@ == flattened(old(form)@, p),
            Err(RequestError::Unauthorized) => r == LoadOutcome::RedirectToLogin && final(form)@
                == old(form)@,
            Err(e) => r == LoadOutcome::ShowError(e) && final(form)@ == old(form)@,
        },
{
    match fetched {
        Ok(p) => {
            form.from_encryption_params(&p);
            LoadOutcome::Populated
        },
        Err(RequestError::Unauthorized) => LoadOutcome::RedirectToLogin,
        Err(e) => LoadOutcome::ShowError(e),
    }
}

/// The notice for a completed save of `changes`. A refusal of the
/// credentials means the confirming password was wrong.
pub open spec fn notice_for(changes: EncryptionType, result: Result<(), RequestError>) -> SaveNotice {
    match result {
        Ok(()) => if changes is Disabled {
            SaveNotice::Disabled
        } else {
            SaveNotice::Enabled
        },
        Err(RequestError::Unauthorized) => SaveNotice::IncorrectPassword,
        Err(e) => SaveNotice::Failed(e),
    }
}

pub fn save_notice(changes: &EncryptionType, result: Result<(), RequestError>) -> (r: SaveNotice)
    ensures
        r == notice_for(*changes, result),
{
    match result {
        Ok(()) => match changes {
            EncryptionType::Disabled => SaveNotice::Disabled,
            _ => SaveNotice::Enabled,
        },
        Err(RequestError::Unauthorized) => SaveNotice::IncorrectPassword,
        Err(e) => SaveNotice::Failed(e),
    }
}

/// Guards the one save that may be in flight for a form.
pub struct SaveState {
    pub pending: bool,
}

impl SaveState {
    pub fn new() -> (r: SaveState)
        ensures
            !r.pending,
    {
        SaveState { pending: false }
    }

    /// Starts a save: validates the form and reads the settings and the
    /// confirming password. Nothing starts while a save is pending or when
    /// the form does not give a whole configuration and a password; else the
    /// save becomes pending.
    pub fn begin(&mut self, form: &mut FormData) -> (r: Option<(EncryptionType, String)>)
        requires
            old(form).wf(),
        ensures
            final(form).wf(),
            old(self).pending ==> r is None && *final(self) == *old(self) && final(form)@
                == old(form)@,
            !old(self).pending ==> {
                let m = old(form)@.validated();
                &&& final(form)@ == m
                &&& r is Some <==> no_errors(m.errors) && decodable(m) && m.stored("password"@) is Some
                &&& r is Some ==> decodes_to(m, r.unwrap().0) && m.stored("password"@) == Some(
                    r.unwrap().1@,
                )
                &&& final(self).pending == r is Some
            },
    {
        if self.pending {
            return None;
        }
        match form.to_encryption_params() {
            None => None,
            Some(changes) => match form.value("password") {
                Some(password) => {
                    self.pending = true;
                    Some((changes, password))
                },
                None => None,
            },
        }
    }

    /// Ends the save in flight, whatever its result, and gives the notice.
    pub fn finish(&mut self, changes: &EncryptionType, result: Result<(), RequestError>) -> (r:
        SaveNotice)
        ensures
            !final(self).pending,
            r == notice_for(*changes, result),
    {
        self.pending = false;
        save_notice(changes, result)
    }
}

} // verus!
