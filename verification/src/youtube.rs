//! Where the video widget starts when it is restored.
use vstd::prelude::*;

verus! {

/// The page the video widget opens when nothing else applies.
pub const HOME_URL: &'static str = "https://www.youtube.com/";

/// `(start page, resume last page)` from the saved settings: resuming is on
/// unless saved off; when resuming, the saved page if it is non-empty, else
/// the home page.
pub fn start_state(resume_last_page: Option<bool>, saved_url: Option<&str>) -> (r: (String, bool))
    ensures
        r.1 == (match resume_last_page {
            Some(b) => b,
            None => true,
        }),
        r.0@ == (match saved_url {
            Some(u) if r.1 && u@.len() > 0 => u@,
            _ => HOME_URL@,
        }),
{
    let resume = match resume_last_page {
        Some(b) => b,
        None => true,
    };
    if resume {
        if let Some(u) = saved_url {
            if crate::text::chars_of(u).len() > 0 {
                return (u.to_string(), resume);
            }
        }
    }
    (HOME_URL.to_string(), resume)
}

} // verus!
