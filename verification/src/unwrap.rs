//! Unwrapping of tracking-wrapper URLs: links that pass through known
//! redirect hosts carry the real target in a query parameter; when the
//! behaviour is enabled, that target replaces the wrapper. Anything that
//! does not parse, or is not a known wrapper, is returned unchanged.

use vstd::prelude::*;

use crate::config::BehavioralConfig;
use crate::text::{chars_end_with, lower_chars, lower_seq, seq_ends_with, str_eq, to_chars};
use crate::url_parse::{parse_url, parsed_url_of, query_pairs_of, url_query_pairs};

verus! {

/// The value of the first query pair with this key, if any.
pub open spec fn first_pair_value(pairs: Seq<(Seq<char>, Seq<char>)>, key: Seq<char>) -> Option<
    Seq<char>,
>
    decreases pairs.len(),
{
    if pairs.len() == 0 {
        None
    } else if pairs[0].0 == key {
        Some(pairs[0].1)
    } else {
        first_pair_value(pairs.skip(1), key)
    }
}

/// The query key that carries the real target for a known wrapper host,
/// compared on the ASCII-lowercased host.
pub open spec fn unwrap_key_for_host(host: Seq<char>) -> Option<Seq<char>> {
    if seq_ends_with(lower_seq(host), "safelinks.protection.outlook.com"@) {
        Some("url"@)
    } else if seq_ends_with(lower_seq(host), "l.messenger.com"@) {
        Some("u"@)
    } else {
        None
    }
}

/// What unwrapping yields: the original string unless unwrapping is
/// enabled, the string parses as a URL with a known wrapper host, and
/// the wrapper's query key is present; then that key's first value.
pub open spec fn unwrap_url_spec(s: Seq<char>, unwrap: bool) -> Seq<char> {
    if !unwrap {
        s
    } else {
        match parsed_url_of(s) {
            None => s,
            Some(parts) => match parts.host {
                None => s,
                Some(host) => match unwrap_key_for_host(host) {
                    None => s,
                    Some(key) => match query_pairs_of(s) {
                        None => s,
                        Some(pairs) => match first_pair_value(pairs, key) {
                            None => s,
                            Some(target) => target,
                        },
                    },
                },
            },
        }
    }
}

/// Unwrap a tracking-wrapper URL, or return the input unchanged.
pub fn unwrap_url(url_str: &str, behavioral_settings: &BehavioralConfig) -> (r: String)
    ensures
        r@ == unwrap_url_spec(url_str@, behavioral_settings.unwrap_urls),
{
    if !behavioral_settings.unwrap_urls {
        return String::from_str(url_str);
    }
    let parts = match parse_url(url_str) {
        None => {
            return String::from_str(url_str);
        },
        Some(p) => p,
    };
    let host = match &parts.host {
        None => {
            return String::from_str(url_str);
        },
        Some(h) => h,
    };
    let hc = to_chars(host.as_str());
    let lh = lower_chars(hc.as_slice());
    let outlook = to_chars("safelinks.protection.outlook.com");
    let messenger = to_chars("l.messenger.com");
    let key: &str = if chars_end_with(lh.as_slice(), outlook.as_slice()) {
        "url"
    } else if chars_end_with(lh.as_slice(), messenger.as_slice()) {
        "u"
    } else {
        return String::from_str(url_str);
    };
    let pairs = match url_query_pairs(url_str) {
        None => {
            return String::from_str(url_str);
        },
        Some(ps) => ps,
    };
    let ghost q = query_pairs_of(url_str@).unwrap();
    let ghost keyv = key@;
    let n = pairs.len();
    let mut i: usize = 0;
    proof {
        assert(q.skip(0) =~= q);
    }
    while i < n
        invariant
            n == pairs@.len(),
            n == q.len(),
            i <= n,
            keyv == key@,
            behavioral_settings.unwrap_urls,
            parsed_url_of(url_str@) == Some(parts@),
            parts@.host == Some(host@),
            unwrap_key_for_host(host@) == Some(keyv),
            query_pairs_of(url_str@) == Some(q),
            forall|k: int| 0 <= k < q.len() ==> pairs@[k].0@ == q[k].0 && pairs@[k].1@ == q[k].1,
            first_pair_value(q, keyv) == first_pair_value(q.skip(i as int), keyv),
        decreases n - i,
    {
        proof {
            assert(q.skip(i as int)[0] == q[i as int]);
            assert(q.skip(i as int).skip(1) =~= q.skip(i as int + 1));
        }
        let pair = &pairs[i];
        proof {
            assert(*pair == pairs@[i as int]);
        }
        if str_eq(pair.0.as_str(), key) {
            return pair.1.clone();
        }
        i = i + 1;
    }
    proof {
        assert(q.skip(i as int).len() == 0);
    }
    String::from_str(url_str)
}

} // verus!
