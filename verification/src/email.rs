use vstd::prelude::*;

verus! {

/// One outbound email: recipient, subject and HTML body. Sending is the
/// transport's job; the service only assembles the message. The debug
/// switch says whether a development build really sends.
pub struct EmailService {
    pub to: String,
    pub subject: String,
    pub html: String,
    pub force_in_debug: bool,
}

impl EmailService {
    pub fn new(to: &str, subject: String, html: String) -> (r: Self)
        ensures
            r.to@ == to@,
            r.subject@ == subject@,
            r.html@ == html@,
            r.force_in_debug,
    {
        EmailService { to: String::from_str(to), subject, html, force_in_debug: true }
    }
}

} // verus!
