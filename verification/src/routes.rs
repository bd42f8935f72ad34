//! The request orchestrator: one function per operation, each taking the
//! request's plain values and the storage directory and returning a
//! response descriptor — a status code with either a view name and render
//! context, a plain-text body, or a redirect target. The surrounding
//! application decodes requests, performs the file writes that mirror the
//! directory, and renders the descriptors.

use vstd::prelude::*;
use vstd::string::StringExecFns;

use crate::clock::TimeFields;
use crate::codec::dec_len;
use crate::codec::decimal_of;
use crate::codec::decimal_string;
use crate::codec::decimal_width;
use crate::config::Config;
use crate::paste::Paste;
use crate::paste::spec_lines;
use crate::paste::split_lines;
use crate::storage::Directory;
use crate::storage::candidate;
use crate::storage::first_free;

verus! {

/// What a response carries besides its status code.
#[derive(Debug)]
pub enum Body {
    /// Render the named view with the given context.
    Render { view: String, context: Paste },
    /// A plain-text body.
    Text(String),
    /// A redirect to the given location.
    Redirect(String),
}

/// A response descriptor, free of any presentation detail.
#[derive(Debug)]
pub struct Response {
    pub status: u16,
    pub body: Body,
}

/// The paste's lines numbered from 1, in order.
pub open spec fn numbered_lines(content: Seq<char>) -> Seq<(int, Seq<char>)> {
    Seq::new(spec_lines(content).len(), |i: int| (i + 1, spec_lines(content)[i]))
}

/// The named fields of a rendered paste view: the site URL, the paste's
/// identifier, and the width in digits of the highest line number.
pub open spec fn paste_params(url: Seq<char>, id: Seq<char>, content: Seq<char>) -> Seq<
    (Seq<char>, Seq<char>),
> {
    seq![
        ("url"@, url),
        ("id"@, id),
        ("index_width"@, decimal_of(dec_len(spec_lines(content).len()))),
    ]
}

/// The named fields of the error view for a missing paste.
pub open spec fn not_found_params(url: Seq<char>, id: Seq<char>) -> Seq<(Seq<char>, Seq<char>)> {
    seq![
        ("url"@, url),
        ("id"@, id),
        ("code"@, "404"@),
        ("description"@, "Not Found: Requested ID doesn't exist."@),
    ]
}

/// The named fields of the error view when the raw view misses: the raw
/// view never carries the identifier, and its description has no period.
pub open spec fn raw_not_found_params(url: Seq<char>) -> Seq<(Seq<char>, Seq<char>)> {
    seq![
        ("url"@, url),
        ("code"@, "404"@),
        ("description"@, "Not Found: Requested ID doesn't exist"@),
    ]
}

/// The named fields of the error view for an invalid submission.
pub open spec fn invalid_post_params(url: Seq<char>) -> Seq<(Seq<char>, Seq<char>)> {
    seq![
        ("url"@, url),
        ("code"@, "400"@),
        ("description"@, "Bad Request: Invalid POST data"@),
    ]
}

/// The named fields of the error view for exhausted allocation.
pub open spec fn exhausted_params(url: Seq<char>) -> Seq<(Seq<char>, Seq<char>)> {
    seq![
        ("url"@, url),
        ("code"@, "409"@),
        ("description"@, "Conflict: Unable to generate unique ID"@),
    ]
}

/// Line numbers are 1-based and increase by 1 with no gaps, matching the
/// physical order of the lines of the content.
pub proof fn lemma_numbered_lines(content: Seq<char>)
    ensures
        numbered_lines(content).len() == spec_lines(content).len(),
        forall|i: int|
            0 <= i < spec_lines(content).len() ==> numbered_lines(content)[i] == (
            i + 1,
            spec_lines(content)[i],
            ),
{
}

/// The new-paste form: the "index" view with the site URL.
pub fn index_get(config: &Config) -> (r: Response)
    ensures
        r.status == 200,
        r.body matches Body::Render { view, context } && view@ == "index"@
            && context.params_view() == seq![("url"@, config.site.url@)]
            && context.lines_view() == Seq::<(int, Seq<char>)>::empty(),
{
    let mut p = Paste::new();
    p.add_param("url", config.site.url.as_str());
    proof {
        assert(p.params_view() =~= seq![("url"@, config.site.url@)]);
    }
    Response { status: 200, body: Body::Render { view: "index".to_owned(), context: p } }
}

/// `{base}/{id}`: the location of a paste.
fn join_url(base: &String, id: &String) -> (r: String)
    ensures
        r@ == base@ + "/"@ + id@,
{
    let mut u = base.clone();
    u.append("/");
    u.append(id.as_str());
    proof {
        assert(u@ =~= base@ + "/"@ + id@);
    }
    u
}

/// A rendered paste page: the site URL, the identifier, the numbered
/// lines, and the index width, under the given view name.
fn paste_page(view: &str, config: &Config, id: &String, content: &String) -> (r: Response)
    ensures
        r.status == 200,
        r.body matches Body::Render { view: v, context } && v@ == view@
            && context.params_view() == paste_params(config.site.url@, id@, content@)
            && context.lines_view() == numbered_lines(content@),
{
    let mut p = Paste::new();
    p.add_param("url", config.site.url.as_str());
    p.add_param("id", id.as_str());
    proof {
        assert(p.params_view() =~= seq![("url"@, config.site.url@), ("id"@, id@)]);
        assert(p.lines_view() =~= numbered_lines(content@).take(0));
    }
    let lines = split_lines(content.as_str());
    let mut i: usize = 0;
    while i < lines.len()
        invariant
            lines@.map_values(|l: String| l@) == spec_lines(content@),
            i <= lines@.len(),
            p.params_view() == seq![("url"@, config.site.url@), ("id"@, id@)],
            p.lines_view() == numbered_lines(content@).take(i as int),
        decreases lines@.len() - i,
    {
        p.add_line(i + 1, lines[i].as_str());
        proof {
            assert(p.lines_view() =~= numbered_lines(content@).take(i as int + 1));
        }
        i = i + 1;
    }
    let width = decimal_width(lines.len());
    let width_str = decimal_string(width);
    p.add_param("index_width", width_str.as_str());
    proof {
        assert(p.lines_view() =~= numbered_lines(content@));
        assert(p.params_view() =~= paste_params(config.site.url@, id@, content@));
    }
    Response { status: 200, body: Body::Render { view: view.to_owned(), context: p } }
}

/// The error page for a missing paste, as the rendered and edit views
/// show it.
fn not_found_page(config: &Config, id: &String) -> (r: Response)
    ensures
        r.status == 404,
        r.body matches Body::Render { view, context } && view@ == "error"@
            && context.params_view() == not_found_params(config.site.url@, id@)
            && context.lines_view() == Seq::<(int, Seq<char>)>::empty(),
{
    let mut p = Paste::new();
    p.add_param("url", config.site.url.as_str());
    p.add_param("id", id.as_str());
    p.add_param("code", "404");
    p.add_param("description", "Not Found: Requested ID doesn't exist.");
    proof {
        assert(p.params_view() =~= not_found_params(config.site.url@, id@));
    }
    Response { status: 404, body: Body::Render { view: "error".to_owned(), context: p } }
}

/// The rendered paste view, or the error view when the identifier holds
/// no paste.
pub fn show_paste(config: &Config, dir: &Directory, id: &String) -> (r: Response)
    requires
        dir.wf(),
    ensures
        dir@.contains_key(id@) ==> r.status == 200
            && (r.body matches Body::Render { view, context } && view@ == "paste"@
            && context.params_view() == paste_params(config.site.url@, id@, dir@[id@])
            && context.lines_view() == numbered_lines(dir@[id@])),
        !dir@.contains_key(id@) ==> r.status == 404
            && (r.body matches Body::Render { view, context } && view@ == "error"@
            && context.params_view() == not_found_params(config.site.url@, id@)
            && context.lines_view() == Seq::<(int, Seq<char>)>::empty()),
{
    match dir.load(id) {
        Ok(content) => paste_page("paste", config, id, &content),
        Err(_) => not_found_page(config, id),
    }
}

/// The stored text itself, byte for byte, as a plain-text body; or the
/// error view when the identifier holds no paste.
pub fn show_raw(config: &Config, dir: &Directory, id: &String) -> (r: Response)
    requires
        dir.wf(),
    ensures
        dir@.contains_key(id@) ==> r.status == 200
            && (r.body matches Body::Text(t) && t@ == dir@[id@]),
        !dir@.contains_key(id@) ==> r.status == 404
            && (r.body matches Body::Render { view, context } && view@ == "error"@
            && context.params_view() == raw_not_found_params(config.site.url@)
            && context.lines_view() == Seq::<(int, Seq<char>)>::empty()),
{
    match dir.load(id) {
        Ok(content) => Response { status: 200, body: Body::Text(content) },
        Err(_) => {
            let mut p = Paste::new();
            p.add_param("url", config.site.url.as_str());
            p.add_param("code", "404");
            p.add_param("description", "Not Found: Requested ID doesn't exist");
            proof {
                assert(p.params_view() =~= raw_not_found_params(config.site.url@));
            }
            Response { status: 404, body: Body::Render { view: "error".to_owned(), context: p } }
        },
    }
}

/// The edit view: the same context as the rendered view, under the
/// "edit" view name, prefilled with the existing content.
pub fn edit_paste(config: &Config, dir: &Directory, id: &String) -> (r: Response)
    requires
        dir.wf(),
    ensures
        dir@.contains_key(id@) ==> r.status == 200
            && (r.body matches Body::Render { view, context } && view@ == "edit"@
            && context.params_view() == paste_params(config.site.url@, id@, dir@[id@])
            && context.lines_view() == numbered_lines(dir@[id@])),
        !dir@.contains_key(id@) ==> r.status == 404
            && (r.body matches Body::Render { view, context } && view@ == "error"@
            && context.params_view() == not_found_params(config.site.url@, id@)
            && context.lines_view() == Seq::<(int, Seq<char>)>::empty()),
{
    match dir.load(id) {
        Ok(content) => paste_page("edit", config, id, &content),
        Err(_) => not_found_page(config, id),
    }
}

/// Creating a paste. A `text` field wins over `paste`; with neither, the
/// submission is invalid and nothing is stored. A `text` submission is
/// answered with a redirect to the new paste, a `paste` submission with a
/// plain-text URL line. When a paste was stored, the new entry is also
/// returned, so that the caller can persist it.
pub fn index_post(
    config: &Config,
    dir: &mut Directory,
    t: &TimeFields,
    text: Option<String>,
    paste: Option<String>,
) -> (r: (Response, Option<(String, String)>))
    requires
        old(dir).wf(),
        t.valid(),
    ensures
        final(dir).wf(),
        text matches Some(c) ==> ({
            let m = old(dir)@;
            let k = first_free(m, *t);
            if k <= 7 {
                let id = candidate(*t, k);
                &&& r.0.status == 302
                &&& (r.0.body matches Body::Redirect(loc) && loc@ == config.site.url@ + "/"@
                    + id)
                &&& (r.1 matches Some(entry) && entry.0@ == id && entry.1@ == c@)
                &&& final(dir)@ == m.insert(id, c@)
            } else {
                &&& r.0.status == 409
                &&& (r.0.body matches Body::Render { view, context } && view@ == "error"@
                    && context.params_view() == exhausted_params(config.site.url@)
                    && context.lines_view() == Seq::<(int, Seq<char>)>::empty())
                &&& r.1 is None
                &&& final(dir)@ == m
            }
        }),
        paste matches Some(c) ==> text is None ==> ({
            let m = old(dir)@;
            let k = first_free(m, *t);
            if k <= 7 {
                let id = candidate(*t, k);
                &&& r.0.status == 200
                &&& (r.0.body matches Body::Text(b) && b@ == "    "@ + config.site.url@
                    + "/"@ + id + "\n"@)
                &&& (r.1 matches Some(entry) && entry.0@ == id && entry.1@ == c@)
                &&& final(dir)@ == m.insert(id, c@)
            } else {
                &&& r.0.status == 409
                &&& (r.0.body matches Body::Text(b) && b@
                    == "Error 409 Conflict: Unable to generate a unique ID"@)
                &&& r.1 is None
                &&& final(dir)@ == m
            }
        }),
        text is None && paste is None ==> ({
            &&& r.0.status == 400
            &&& (r.0.body matches Body::Render { view, context } && view@ == "error"@
                && context.params_view() == invalid_post_params(config.site.url@)
                && context.lines_view() == Seq::<(int, Seq<char>)>::empty())
            &&& r.1 is None
            &&& final(dir)@ == old(dir)@
        }),
{
    if let Some(content) = text {
        match dir.store(t, &content) {
            Ok(id) => {
                let loc = join_url(&config.site.url, &id);
                (Response { status: 302, body: Body::Redirect(loc) }, Some((id, content)))
            },
            Err(_) => (exhausted_page(config), None),
        }
    } else if let Some(content) = paste {
        match dir.store(t, &content) {
            Ok(id) => {
                let loc = join_url(&config.site.url, &id);
                let mut b = "    ".to_owned();
                b.append(loc.as_str());
                b.append("\n");
                proof {
                    assert(b@ =~= "    "@ + config.site.url@ + "/"@ + id@ + "\n"@);
                }
                (Response { status: 200, body: Body::Text(b) }, Some((id, content)))
            },
            Err(_) => (
                Response {
                    status: 409,
                    body: Body::Text("Error 409 Conflict: Unable to generate a unique ID".to_owned()),
                },
                None,
            ),
        }
    } else {
        let mut p = Paste::new();
        p.add_param("url", config.site.url.as_str());
        p.add_param("code", "400");
        p.add_param("description", "Bad Request: Invalid POST data");
        proof {
            assert(p.params_view() =~= invalid_post_params(config.site.url@));
        }
        (
            Response { status: 400, body: Body::Render { view: "error".to_owned(), context: p } },
            None,
        )
    }
}

/// The error page for exhausted identifier allocation on a form
/// submission.
fn exhausted_page(config: &Config) -> (r: Response)
    ensures
        r.status == 409,
        r.body matches Body::Render { view, context } && view@ == "error"@
            && context.params_view() == exhausted_params(config.site.url@)
            && context.lines_view() == Seq::<(int, Seq<char>)>::empty(),
{
    let mut p = Paste::new();
    p.add_param("url", config.site.url.as_str());
    p.add_param("code", "409");
    p.add_param("description", "Conflict: Unable to generate unique ID");
    proof {
        assert(p.params_view() =~= exhausted_params(config.site.url@));
    }
    Response { status: 409, body: Body::Render { view: "error".to_owned(), context: p } }
}

} // verus!
