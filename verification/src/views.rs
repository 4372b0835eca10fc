//! The web pages of the server: templates and the dispatcher redirect.
use vstd::prelude::*;
use vstd::string::*;

verus! {

/// The page templates.
#[derive(Debug, Clone, Copy, PartialEq, Eq, Structural)]
pub enum Template {
    Debug,
    Stream,
    DispatcherNotFound,
    DispatcherNoRoomAvailable,
}

impl Template {
    /// The file name of the template.
    pub open spec fn spec_file_name(self) -> Seq<char> {
        match self {
            Template::Debug => "debug.html.jinja"@,
            Template::Stream => "stream.html.jinja"@,
            Template::DispatcherNotFound => "dispatcher_not_found.html.jinja"@,
            Template::DispatcherNoRoomAvailable => "dispatcher_no_room_available.html.jinja"@,
        }
    }

    /// The file name of the template.
    pub fn as_str(&self) -> (r: &'static str)
        ensures
            r@ == self.spec_file_name(),
    {
        match self {
            Template::Debug => "debug.html.jinja",
            Template::Stream => "stream.html.jinja",
            Template::DispatcherNotFound => "dispatcher_not_found.html.jinja",
            Template::DispatcherNoRoomAvailable => "dispatcher_no_room_available.html.jinja",
        }
    }
}

/// Where a dispatcher sends its visitor: the stream page of the selected
/// room, with the return room prefix and the random postfix flag as query
/// parameters where the dispatcher sets them.
pub open spec fn spec_redirect_uri(
    room_name: Seq<char>,
    return_room_prefix: Option<Seq<char>>,
    add_random_postfix: bool,
) -> Seq<char> {
    let base = "/s/"@ + room_name + "?"@;
    let with_prefix = match return_room_prefix {
        Some(p) => base + "&returnRoomPrefix="@ + p,
        None => base,
    };
    if add_random_postfix {
        with_prefix + "&addRandomPostfix=1"@
    } else {
        with_prefix
    }
}

/// The redirect target of a dispatcher page for the selected room.
pub fn dispatcher_redirect_uri(room_name: &str, return_room_prefix: Option<String>, add_random_postfix: bool) -> (r: String)
    ensures
        r@ == spec_redirect_uri(
            room_name@,
            match return_room_prefix {
                Some(p) => Some(p@),
                None => None,
            },
            add_random_postfix,
        ),
{
    let mut uri = "/s/".to_owned();
    uri.append(room_name);
    uri.append("?");
    match return_room_prefix {
        Some(prefix) => {
            uri.append("&returnRoomPrefix=");
            uri.append(prefix.as_str());
        },
        None => {},
    }
    if add_random_postfix {
        uri.append("&addRandomPostfix=1");
    }
    uri
}

} // verus!
