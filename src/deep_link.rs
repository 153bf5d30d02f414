//! Routing of incoming application links: which screen a link opens, or
//! whether it carries connection parameters.

use vstd::prelude::*;
use crate::text::{chars_of, same_text, string_of, strip_all, strip_repeated};

verus! {

/// What the application does with one incoming link.
#[derive(Debug)]
pub enum DeepLinkAction {
    /// Show and focus the main window and send it to this route.
    Navigate(String),
    /// Hand the whole link to the main window as connection parameters.
    Connect,
}

pub open spec fn host_view(host: Option<&str>) -> Option<Seq<char>> {
    match host {
        Some(h) => Some(h@),
        None => None,
    }
}

/// The route a link opens, or `None` for a connection link: the link's path
/// without its leading slashes goes under the screen that its host names, and
/// an unknown or missing host opens the root.
pub open spec fn deep_link_route(host: Option<Seq<char>>, path: Seq<char>) -> Option<Seq<char>> {
    let p = strip_all(path, seq!['/']);
    match host {
        Some(h) => if h == "workspace"@ {
            Some("/workspace/"@ + p)
        } else if h == "approval"@ {
            Some("/approvals/"@ + p)
        } else if h == "execution"@ {
            Some("/executions/"@ + p)
        } else if h == "connect"@ {
            None
        } else {
            Some("/"@)
        },
        None => Some("/"@),
    }
}

fn under(prefix: &str, rest: &Vec<char>) -> (r: String)
    ensures
        r@ == prefix@ + rest@,
{
    let mut r = String::from_str(prefix);
    r.append(string_of(rest.as_slice()).as_str());
    r
}

/// Decides what one link with the given host and path does.
pub fn deep_link_action(host: Option<&str>, path: &str) -> (r: DeepLinkAction)
    ensures
        r is Connect <==> deep_link_route(host_view(host), path@) is None,
        r is Navigate ==> deep_link_route(host_view(host), path@) == Some(r->Navigate_0@),
{
    proof {
        reveal_strlit("workspace");
        reveal_strlit("approval");
        reveal_strlit("execution");
        reveal_strlit("connect");
    }
    assert("workspace"@.len() == 9 && "approval"@.len() == 8 && "execution"@.len() == 9
        && "connect"@.len() == 7 && "workspace"@[0] == 'w' && "execution"@[0] == 'e');
    let slash = vec!['/'];
    assert(slash@ =~= seq!['/']);
    let p = strip_repeated(&chars_of(path), &slash);
    match host {
        Some(h) => {
            if same_text(h, "workspace") {
                let r = DeepLinkAction::Navigate(under("/workspace/", &p));
                r
            } else if same_text(h, "approval") {
                let r = DeepLinkAction::Navigate(under("/approvals/", &p));
                r
            } else if same_text(h, "execution") {
                let r = DeepLinkAction::Navigate(under("/executions/", &p));
                r
            } else if same_text(h, "connect") {
                DeepLinkAction::Connect
            } else {
                let r = DeepLinkAction::Navigate(String::from_str("/"));
                r
            }
        },
        None => {
            let r = DeepLinkAction::Navigate(String::from_str("/"));
            r
        },
    }
}

/// The actions for a batch of links given as (host, path) pairs, in order:
/// handling stops after the first connection link.
pub fn deep_link_plan(links: &Vec<(Option<String>, String)>) -> (r: Vec<DeepLinkAction>)
    ensures
        r@.len() <= links@.len(),
        forall|i: int|
            0 <= i < r@.len() ==> {
                let host = match links@[i].0 {
                    Some(h) => Some(h@),
                    None => None,
                };
                let route = deep_link_route(host, links@[i].1@);
                &&& (#[trigger] r@[i]) is Connect <==> route is None
                &&& r@[i] is Navigate ==> route == Some(r@[i]->Navigate_0@)
            },
        forall|i: int| 0 <= i < r@.len() - 1 ==> !(#[trigger] r@[i] is Connect),
        r@.len() < links@.len() ==> r@.len() > 0 && r@.last() is Connect,
{
    let mut r: Vec<DeepLinkAction> = Vec::new();
    for i in 0..links.len()
        invariant
            r@.len() == i <= links@.len(),
            forall|k: int|
                0 <= k < r@.len() ==> {
                    let host = match links@[k].0 {
                        Some(h) => Some(h@),
                        None => None,
                    };
                    let route = deep_link_route(host, links@[k].1@);
                    &&& (#[trigger] r@[k]) is Connect <==> route is None
                    &&& r@[k] is Navigate ==> route == Some(r@[k]->Navigate_0@)
                },
            forall|k: int| 0 <= k < r@.len() ==> !(#[trigger] r@[k] is Connect),
    {
        let host: Option<&str> = match &links[i].0 {
            Some(h) => Some(h.as_str()),
            None => None,
        };
        let a = deep_link_action(host, links[i].1.as_str());
        let stop = match a {
            DeepLinkAction::Connect => true,
            _ => false,
        };
        r.push(a);
        if stop {
            return r;
        }
    }
    r
}

} // verus!
