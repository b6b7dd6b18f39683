//! Map a Datadog site identifier to its Logs API base URL.

use crate::error::EsiftError;
use crate::text::{join3, same_text};
use vstd::prelude::*;

verus! {

/// The base URL of a known site. The empty text is US1.
pub open spec fn site_url(site: Seq<char>) -> Option<Seq<char>> {
    if site == ""@ || site == "datadoghq.com"@ || site == "us1.datadoghq.com"@ || site == "us"@
        || site == "us1"@ {
        Some("https://api.datadoghq.com"@)
    } else if site == "datadoghq.eu"@ || site == "eu"@ || site == "eu1"@ {
        Some("https://api.datadoghq.eu"@)
    } else if site == "us3.datadoghq.com"@ || site == "us3"@ {
        Some("https://api.us3.datadoghq.com"@)
    } else if site == "us5.datadoghq.com"@ || site == "us5"@ {
        Some("https://api.us5.datadoghq.com"@)
    } else if site == "ap1.datadoghq.com"@ || site == "ap1"@ {
        Some("https://api.ap1.datadoghq.com"@)
    } else {
        None
    }
}

/// What an unknown site is answered.
pub open spec fn unknown_site(site: Seq<char>) -> Seq<char> {
    "Unknown Datadog site '"@ + site
        + "'. Use datadoghq.com, datadoghq.eu, us3.datadoghq.com, us5.datadoghq.com, or ap1.datadoghq.com."@
}

/// Base URL for the Datadog API at `site`. Accepts the common site identifiers
/// and treats the empty string as US1 (`datadoghq.com`).
pub fn base_url(site: &str) -> (r: Result<String, EsiftError>)
    ensures
        match r {
            Ok(url) => site_url(site@) == Some(url@),
            Err(e) => site_url(site@) is None && e is Config && e.detail() == unknown_site(site@),
        },
{
    if same_text(site, "") || same_text(site, "datadoghq.com") || same_text(
        site,
        "us1.datadoghq.com",
    ) || same_text(site, "us") || same_text(site, "us1") {
        Ok("https://api.datadoghq.com".to_owned())
    } else if same_text(site, "datadoghq.eu") || same_text(site, "eu") || same_text(site, "eu1") {
        Ok("https://api.datadoghq.eu".to_owned())
    } else if same_text(site, "us3.datadoghq.com") || same_text(site, "us3") {
        Ok("https://api.us3.datadoghq.com".to_owned())
    } else if same_text(site, "us5.datadoghq.com") || same_text(site, "us5") {
        Ok("https://api.us5.datadoghq.com".to_owned())
    } else if same_text(site, "ap1.datadoghq.com") || same_text(site, "ap1") {
        Ok("https://api.ap1.datadoghq.com".to_owned())
    } else {
        Err(
            EsiftError::Config(
                join3(
                    "Unknown Datadog site '",
                    site,
                    "'. Use datadoghq.com, datadoghq.eu, us3.datadoghq.com, us5.datadoghq.com, or ap1.datadoghq.com.",
                ),
            ),
        )
    }
}

/// A site's API is at the host `api.` of the site itself.
pub proof fn sites_have_their_own_host(site: Seq<char>)
    requires
        site == "datadoghq.com"@ || site == "datadoghq.eu"@ || site == "us3.datadoghq.com"@ || site
            == "us5.datadoghq.com"@ || site == "ap1.datadoghq.com"@,
    ensures
        site_url(site) == Some("https://api."@ + site),
{
    reveal_strlit("https://api.");
    reveal_strlit("datadoghq.com");
    reveal_strlit("datadoghq.eu");
    reveal_strlit("us3.datadoghq.com");
    reveal_strlit("us5.datadoghq.com");
    reveal_strlit("ap1.datadoghq.com");
    reveal_strlit("https://api.datadoghq.com");
    reveal_strlit("https://api.datadoghq.eu");
    reveal_strlit("https://api.us3.datadoghq.com");
    reveal_strlit("https://api.us5.datadoghq.com");
    reveal_strlit("https://api.ap1.datadoghq.com");
    names_apart(site);
    assert("https://api.datadoghq.com"@ =~= "https://api."@ + "datadoghq.com"@);
    assert("https://api.datadoghq.eu"@ =~= "https://api."@ + "datadoghq.eu"@);
    assert("https://api.us3.datadoghq.com"@ =~= "https://api."@ + "us3.datadoghq.com"@);
    assert("https://api.us5.datadoghq.com"@ =~= "https://api."@ + "us5.datadoghq.com"@);
    assert("https://api.ap1.datadoghq.com"@ =~= "https://api."@ + "ap1.datadoghq.com"@);
}

proof fn names_apart(site: Seq<char>)
    ensures
        site == "datadoghq.com"@ ==> site.len() == 13,
        site == "datadoghq.eu"@ ==> site.len() == 12,
        site == "us3.datadoghq.com"@ ==> site.len() == 17 && site[0] == 'u' && site[2] == '3',
        site == "us5.datadoghq.com"@ ==> site.len() == 17 && site[0] == 'u' && site[2] == '5',
        site == "ap1.datadoghq.com"@ ==> site.len() == 17 && site[0] == 'a' && site[2] == '1',
        site == "us1.datadoghq.com"@ ==> site.len() == 17 && site[0] == 'u' && site[2] == '1',
        site == ""@ ==> site.len() == 0,
        site == "us"@ ==> site.len() == 2 && site[0] == 'u',
        site == "eu"@ ==> site.len() == 2 && site[0] == 'e',
        site == "us1"@ ==> site.len() == 3 && site[0] == 'u' && site[2] == '1',
        site == "eu1"@ ==> site.len() == 3 && site[0] == 'e' && site[2] == '1',
        site == "us3"@ ==> site.len() == 3 && site[0] == 'u' && site[2] == '3',
        site == "us5"@ ==> site.len() == 3 && site[0] == 'u' && site[2] == '5',
        site == "ap1"@ ==> site.len() == 3 && site[0] == 'a' && site[2] == '1',
{
    reveal_strlit("datadoghq.com");
    reveal_strlit("datadoghq.eu");
    reveal_strlit("us3.datadoghq.com");
    reveal_strlit("us5.datadoghq.com");
    reveal_strlit("ap1.datadoghq.com");
    reveal_strlit("us1.datadoghq.com");
    reveal_strlit("");
    reveal_strlit("us");
    reveal_strlit("eu");
    reveal_strlit("us1");
    reveal_strlit("eu1");
    reveal_strlit("us3");
    reveal_strlit("us5");
    reveal_strlit("ap1");
}

/// A region stands for its site, with or without its number where it is the first,
/// and no text at all for the first site of the United States.
pub proof fn regions_stand_for_their_site(site: Seq<char>)
    ensures
        site.len() == 0 || site == "us"@ || site == "us1"@ || site == "us1.datadoghq.com"@
            ==> site_url(site) == site_url("datadoghq.com"@),
        site == "eu"@ || site == "eu1"@ ==> site_url(site) == site_url("datadoghq.eu"@),
        site == "us3"@ ==> site_url(site) == site_url("us3.datadoghq.com"@),
        site == "us5"@ ==> site_url(site) == site_url("us5.datadoghq.com"@),
        site == "ap1"@ ==> site_url(site) == site_url("ap1.datadoghq.com"@),
{
    names_apart(site);
    names_apart("datadoghq.com"@);
    names_apart("datadoghq.eu"@);
    names_apart("us3.datadoghq.com"@);
    names_apart("us5.datadoghq.com"@);
    names_apart("ap1.datadoghq.com"@);
    if site.len() == 0 {
        reveal_strlit("");
        assert(site =~= ""@);
    }
}

/// No other text names a site.
pub proof fn other_sites_are_unknown(site: Seq<char>)
    requires
        site.len() > 0,
        site != "datadoghq.com"@,
        site != "datadoghq.eu"@,
        site != "us1.datadoghq.com"@,
        site != "us3.datadoghq.com"@,
        site != "us5.datadoghq.com"@,
        site != "ap1.datadoghq.com"@,
        site != "us"@,
        site != "us1"@,
        site != "eu"@,
        site != "eu1"@,
        site != "us3"@,
        site != "us5"@,
        site != "ap1"@,
    ensures
        site_url(site) is None,
{
    reveal_strlit("");
    assert(""@.len() == 0);
}

} // verus!
