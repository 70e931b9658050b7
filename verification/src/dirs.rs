//! Where the application keeps its files, given the variables of the environment.
use vstd::prelude::*;
use crate::number::{i64_text, signed_decimal};
use crate::path::{path_join, path_joined};
use crate::text::{opt_str, opt_view, owned};

verus! {

/// The value of a variable, where it is set to something.
pub open spec fn set_value(v: Option<Seq<char>>) -> Option<Seq<char>> {
    match v {
        Some(s) => if s.len() == 0 {
            None
        } else {
            Some(s)
        },
        None => None,
    }
}

/// The directory for data of the user.
pub open spec fn data_base(xdg: Option<Seq<char>>, home: Option<Seq<char>>) -> Option<Seq<char>> {
    match set_value(xdg) {
        Some(v) => Some(v),
        None => match home {
            Some(h) => Some(path_joined(h, ".local/share"@)),
            None => None,
        },
    }
}

/// The directory for data of the user.
fn user_data(xdg: Option<&str>, home: Option<&str>) -> (r: Option<String>)
    ensures
        opt_view(r) == data_base(opt_str(xdg), opt_str(home)),
{
    if let Some(v) = xdg {
        if !v.is_empty() {
            return Some(owned(v));
        }
    }
    match home {
        Some(h) => Some(path_join(h, ".local/share")),
        None => None,
    }
}

/// The directory for data of the application, where it can be told.
pub fn data_dir(xdg: Option<&str>, home: Option<&str>) -> (r: Option<String>)
    ensures
        opt_view(r) == (match data_base(opt_str(xdg), opt_str(home)) {
            Some(b) => Some(path_joined(b, "xiě-code"@)),
            None => None,
        }),
{
    match user_data(xdg, home) {
        Some(b) => Some(path_join(b.as_str(), "xiě-code")),
        None => None,
    }
}

/// The file with the credentials; below the current directory where there is no better place.
pub fn auth_path(xdg: Option<&str>, home: Option<&str>) -> (r: String)
    ensures
        r@ == path_joined(
            path_joined(
                match data_base(opt_str(xdg), opt_str(home)) {
                    Some(b) => b,
                    None => "."@,
                },
                "xiě-code"@,
            ),
            "auth.json"@,
        ),
{
    let base = match user_data(xdg, home) {
        Some(b) => b,
        None => owned("."),
    };
    path_join(path_join(base.as_str(), "xiě-code").as_str(), "auth.json")
}

/// The directory with the saved states of a project.
pub open spec fn snapshots_path(
    project_id: i64,
    xdg: Option<Seq<char>>,
    home: Option<Seq<char>>,
) -> Seq<char> {
    let base = match data_base(xdg, home) {
        Some(b) => b,
        None => path_joined(""@, ".local/share"@),
    };
    path_joined(
        path_joined(path_joined(base, "xiě-code"@), "snapshots"@),
        signed_decimal(project_id as int),
    )
}

/// The directory with the saved states of a project.
pub fn snapshots_dir(project_id: i64, xdg: Option<&str>, home: Option<&str>) -> (r: String)
    ensures
        r@ == snapshots_path(project_id, opt_str(xdg), opt_str(home)),
{
    let base = match user_data(xdg, home) {
        Some(b) => b,
        None => path_join("", ".local/share"),
    };
    let app = path_join(base.as_str(), "xiě-code");
    let all = path_join(app.as_str(), "snapshots");
    path_join(all.as_str(), i64_text(project_id).as_str())
}

/// The file with the last catalogue that was fetched, where it can be told.
pub fn cache_path(xdg: Option<&str>, home: Option<&str>) -> (r: Option<String>)
    ensures
        opt_view(r) == (match (set_value(opt_str(xdg)), opt_str(home)) {
            (Some(v), _) => Some(path_joined(path_joined(v, "xiě-code"@), "models.json"@)),
            (None, Some(h)) => Some(
                path_joined(path_joined(path_joined(h, ".cache"@), "xiě-code"@), "models.json"@),
            ),
            (None, None) => None,
        }),
{
    let mut base: Option<String> = None;
    if let Some(v) = xdg {
        if !v.is_empty() {
            base = Some(owned(v));
        }
    }
    let base = match base {
        Some(b) => b,
        None => match home {
            Some(h) => path_join(h, ".cache"),
            None => {
                return None;
            },
        },
    };
    Some(path_join(path_join(base.as_str(), "xiě-code").as_str(), "models.json"))
}

} // verus!
