use vstd::prelude::*;

use crate::error::NetraError;
use crate::text::{chars_of, trim, trim_chars};

verus! {

/// Accepts a tab identifier that is not blank.
pub fn validate_tab_id(tab_id: &str) -> (r: Result<(), NetraError>)
    ensures
        r is Ok <==> trim(tab_id@).len() > 0,
        r matches Err(e) ==> e matches NetraError::InvalidInput(m) && m@ == "tab_id must not be empty"@,
{
    let chars = chars_of(tab_id);
    if trim_chars(&chars).len() == 0 {
        return Err(NetraError::InvalidInput("tab_id must not be empty".to_string()));
    }
    Ok(())
}

/// Accepts a URL that is not blank.
pub fn validate_url(url: &str) -> (r: Result<(), NetraError>)
    ensures
        r is Ok <==> trim(url@).len() > 0,
        r matches Err(e) ==> e matches NetraError::InvalidInput(m) && m@ == "url must not be empty"@,
{
    let chars = chars_of(url);
    if trim_chars(&chars).len() == 0 {
        return Err(NetraError::InvalidInput("url must not be empty".to_string()));
    }
    Ok(())
}

} // verus!
