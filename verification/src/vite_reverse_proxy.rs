//! Where the development server forwards the requests for the bundler's
//! files.
use vstd::prelude::*;
use crate::config::ServerConfig;
use crate::source_builder::{decimal, decimal_string};
use crate::text::{owned, concat_str, join_with, concat_all};

verus! {

broadcast use vstd::string::group_string_axioms;

/// The bundler's development server: the port after the application's.
pub open spec fn vite_url(server: ServerConfig) -> Seq<char> {
    "http://"@ + server.host@ + ":"@ + decimal((server.port + 1) as nat) + "/vite-server"@
}

/// The query pairs as `key=value`, joined with `&`, after a `?`; nothing
/// without pairs.
pub open spec fn query_suffix(pairs: Seq<(Seq<char>, Seq<char>)>) -> Seq<char> {
    if pairs.len() == 0 {
        Seq::empty()
    } else {
        "?"@ + join_with(pairs.map_values(|p: (Seq<char>, Seq<char>)| p.0 + "="@ + p.1), "&"@)
    }
}

/// The address that a request for `path` with the query `pairs` is
/// forwarded to. The application's port must leave room for the bundler's.
pub fn proxied_url(server: &ServerConfig, path: &str, pairs: &Vec<(String, String)>) -> (res: String)
    requires
        server.port < 65535,
    ensures
        res@ == vite_url(*server) + "/"@ + path@ + query_suffix(crate::env::pair_views(pairs@)),
        res@ == "http://"@ + server.host@ + ":"@ + decimal(server.port as nat + 1) + "/vite-server/"@
            + path@ + query_suffix(crate::env::pair_views(pairs@)),
{
    let mut url = concat_str("http://", server.host.as_str());
    url.append(":");
    let port = decimal_string(server.port + 1);
    url.append(port.as_str());
    url.append("/vite-server");
    url.append("/");
    url.append(path);
    let ghost pv = crate::env::pair_views(pairs@);
    let ghost parts = pv.map_values(|p: (Seq<char>, Seq<char>)| p.0 + "="@ + p.1);
    if pairs.len() > 0 {
        let ghost before = url@;
        url.append("?");
        let mut joined = String::new();
        assert(parts.take(0) =~= Seq::<Seq<char>>::empty());
        for i in 0..pairs.len()
            invariant
                pv == crate::env::pair_views(pairs@),
                parts == pv.map_values(|p: (Seq<char>, Seq<char>)| p.0 + "="@ + p.1),
                joined@ == join_with(parts.take(i as int), "&"@),
        {
            let ghost prev = joined@;
            if i > 0 {
                joined.append("&");
            }
            joined.append(pairs[i].0.as_str());
            joined.append("=");
            joined.append(pairs[i].1.as_str());
            proof {
                assert(parts.take(i + 1).drop_last() =~= parts.take(i as int));
                assert(parts[i as int] == pairs@[i as int].0@ + "="@ + pairs@[i as int].1@);
                assert(parts.take(i + 1).last() == parts[i as int]);
                if i > 0 {
                    assert(joined@ =~= prev + "&"@ + parts[i as int]);
                } else {
                    assert(parts.take(0) =~= Seq::<Seq<char>>::empty());
                    assert(joined@ =~= parts[i as int]);
                }
            }
        }
        assert(parts.take(parts.len() as int) =~= parts);
        url.append(joined.as_str());
        assert(url@ =~= before + "?"@ + join_with(parts, "&"@));
    } else {
        assert(pv.len() == 0);
    }
    proof {
        reveal_strlit("/vite-server");
        reveal_strlit("/");
        reveal_strlit("/vite-server/");
        assert(server.port as nat + 1 == (server.port + 1) as nat);
    }
    url
}

} // verus!
