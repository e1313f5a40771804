use vstd::prelude::*;
use crate::message::{dec_string, lemma_scan_bounds, lemma_scan_char, scan_from, set_header,
    u64_to_dec, with_header, Method, RespView};
use crate::plugins::{DataView, PluginData};

verus! {

/// Whether a path component survives sanitisation: empty, here and
/// parent components are dropped, so a request can never climb out of
/// the document root.
pub open spec fn keep_component(c: Seq<char>) -> bool {
    c.len() > 0 && c != "."@ && c != ".."@
}

/// The surviving components of a request path, split on slashes.
pub open spec fn clean_components(p: Seq<char>) -> Seq<Seq<char>>
    decreases p.len(),
    via clean_components_decreases
{
    let j = scan_from(p, |c: char| c == '/');
    let comp = p.take(j);
    (if keep_component(comp) {
        seq![comp]
    } else {
        Seq::empty()
    }) + (if j >= p.len() {
        Seq::empty()
    } else {
        clean_components(p.skip(j + 1))
    })
}

#[via_fn]
proof fn clean_components_decreases(p: Seq<char>) {
    lemma_scan_bounds(p, |c: char| c == '/');
}

/// The components appended to a directory, each behind one slash.
pub open spec fn joined_suffix(cs: Seq<Seq<char>>) -> Seq<char>
    decreases cs.len(),
{
    if cs.len() == 0 {
        Seq::empty()
    } else {
        "/"@ + cs.first() + joined_suffix(cs.drop_first())
    }
}

/// The document root without a trailing slash.
pub open spec fn trimmed_root(docroot: Seq<char>) -> Seq<char> {
    if docroot.len() > 0 && docroot.last() == '/' {
        docroot.take(docroot.len() - 1)
    } else {
        docroot
    }
}

/// The file a request path names under a document root: the root,
/// then each surviving path component behind a slash.
pub open spec fn candidate_path(docroot: Seq<char>, p: Seq<char>) -> Seq<char> {
    trimmed_root(docroot) + joined_suffix(clean_components(p))
}

/// This plugin serves static files from a document root.
///
/// It only acts on GET and HEAD requests; everything else passes
/// through to the next plugin untouched.
pub struct Htdocs {
    docroot: String,
    index: Option<String>,
}

/// The view of an Htdocs configuration.
pub struct HtdocsView {
    pub docroot: Seq<char>,
    pub index: Option<Seq<char>>,
}

impl View for Htdocs {
    type V = HtdocsView;

    closed spec fn view(&self) -> HtdocsView {
        HtdocsView {
            docroot: self.docroot@,
            index: match self.index {
                Some(ref s) => Some(s@),
                None => None,
            },
        }
    }
}

impl Htdocs {
    /// Create an Htdocs plugin with the given document root.
    ///
    /// `index` is the file looked for when a directory is named, or
    /// `None` if directories are not to be matched.
    pub fn new(docroot: String, index: Option<String>) -> (h: Htdocs)
        ensures
            h@ == (HtdocsView {
                docroot: docroot@,
                index: match index {
                    Some(s) => Some(s@),
                    None => None,
                },
            }),
    {
        Htdocs { docroot, index }
    }

    /// The index file name this plugin was configured with, if any.
    pub fn index_name(&self) -> (r: Option<&String>)
        ensures
            match r {
                Some(s) => self@.index == Some(s@),
                None => self@.index is None,
            },
    {
        self.index.as_ref()
    }

    /// The file this plugin would try for a request path.
    pub fn candidate_file(&self, path: &str) -> (r: String)
        ensures
            r@ == candidate_path(self@.docroot, path@),
    {
        let root = self.docroot.as_str();
        let root_len = root.unicode_len();
        let mut out: String = if root_len > 0 && root.get_char(root_len - 1) == '/' {
            String::from_str(root.substring_char(0, root_len - 1))
        } else {
            String::from_str(root)
        };
        proof {
            assert(out@ =~= trimmed_root(self@.docroot));
        }
        let n = path.unicode_len();
        let mut pos: usize = 0;
        let ghost whole = trimmed_root(self@.docroot) + joined_suffix(clean_components(path@));
        proof {
            assert(path@.skip(0) =~= path@);
        }
        loop
            invariant
                pos <= n,
                n == path@.len(),
                whole == candidate_path(self@.docroot, path@),
                whole == out@ + joined_suffix(clean_components(path@.skip(pos as int))),
            decreases n - pos,
        {
            let ghost suf = path@.skip(pos as int);
            let mut j: usize = pos;
            while j < n && path.get_char(j) != '/'
                invariant
                    pos <= j <= n,
                    n == path@.len(),
                    forall|k: int| pos <= k < j ==> path@[k] != '/',
                decreases n - j,
            {
                j = j + 1;
            }
            proof {
                assert(forall|k: int| 0 <= k < suf.len() ==> suf[k] == path@[pos + k]);
                lemma_scan_char(suf, |c: char| c == '/', j - pos);
            }
            let ghost comp = suf.take(j - pos);
            let seg_len = j - pos;
            let keep: bool = if seg_len == 0 {
                false
            } else if seg_len == 1 && path.get_char(pos) == '.' {
                false
            } else if seg_len == 2 && path.get_char(pos) == '.' && path.get_char(pos + 1) == '.' {
                false
            } else {
                true
            };
            proof {
                reveal_strlit(".");
                reveal_strlit("..");
                assert(comp.len() == seg_len);
                assert(forall|k: int| 0 <= k < comp.len() ==> comp[k] == path@[pos + k]);
                assert(comp =~= path@.subrange(pos as int, j as int));
                if seg_len == 1 && path@[pos as int] == '.' {
                    assert(comp =~= "."@);
                }
                if seg_len == 2 && path@[pos as int] == '.' && path@[pos as int + 1] == '.' {
                    assert(comp =~= ".."@);
                }
                if keep {
                    assert(comp.len() > 0);
                    if comp.len() == 1 {
                        assert(comp[0] != '.');
                        assert(comp != "."@);
                    }
                    if comp.len() == 2 {
                        assert(comp[0] != '.' || comp[1] != '.');
                        assert(comp != ".."@);
                    }
                    assert(comp != "."@ && comp != ".."@);
                }
                assert(keep == keep_component(comp));
            }
            if keep {
                out.append("/");
                out.append(path.substring_char(pos, j));
            }
            proof {
                let kept: Seq<Seq<char>> = if keep_component(comp) {
                    seq![comp]
                } else {
                    Seq::empty()
                };
                let rest: Seq<Seq<char>> = if j >= n {
                    Seq::empty()
                } else {
                    clean_components(path@.skip(j as int + 1))
                };
                if j < n {
                    assert(suf.skip(j - pos + 1) =~= path@.skip(j as int + 1));
                }
                assert(clean_components(suf) == kept + rest);
                if keep {
                    assert((kept + rest).first() == comp);
                    assert((kept + rest).drop_first() =~= rest);
                    assert(joined_suffix(kept + rest) == "/"@ + comp + joined_suffix(rest));
                } else {
                    assert(kept + rest =~= rest);
                }
            }
            if j >= n {
                proof {
                    assert(joined_suffix(Seq::<Seq<char>>::empty()) == Seq::<char>::empty());
                    assert(whole =~= out@);
                }
                return out;
            }
            let ghost oldpos = pos as int;
            pos = j + 1;
            proof {
                assert(path@.skip(pos as int) =~= suf.skip(j as int + 1 - oldpos));
            }
        }
    }
}

/// What a read of the candidate file came to.
pub enum FileOutcome {
    /// No such file: the request passes through untouched.
    Missing,
    /// The path names a directory.
    Directory,
    /// The file exists but could not be opened or read.
    Unreadable,
    /// The file's bytes.
    Content(Vec<u8>),
}

/// The view of a file outcome.
pub enum FileView {
    Missing,
    Directory,
    Unreadable,
    Content(Seq<u8>),
}

impl View for FileOutcome {
    type V = FileView;

    open spec fn view(&self) -> FileView {
        match self {
            FileOutcome::Missing => FileView::Missing,
            FileOutcome::Directory => FileView::Directory,
            FileOutcome::Unreadable => FileView::Unreadable,
            FileOutcome::Content(b) => FileView::Content(b@),
        }
    }
}

/// What a file outcome does to the request context: content answers the
/// request (bytes withheld for HEAD), an unreadable file is a server
/// error, a missing file changes nothing.
pub open spec fn file_apply<S>(d: DataView<S>, f: FileView) -> DataView<S> {
    match f {
        FileView::Content(bytes) => DataView {
            response: RespView {
                status: crate::message::STATUS_OK,
                headers: with_header(
                    d.response.headers,
                    "Content-Length"@,
                    dec_string(bytes.len()),
                ),
                body: if d.request.method == Method::Head {
                    d.response.body
                } else {
                    Some(bytes)
                },
            },
            ..d
        },
        FileView::Unreadable => DataView {
            response: RespView {
                status: crate::message::STATUS_INTERNAL_SERVER_ERROR,
                headers: d.response.headers,
                body: d.response.body,
            },
            ..d
        },
        _ => d,
    }
}

/// Apply a file outcome to the context.  Directory outcomes are decided
/// by the dispatcher (they may name an index file to try instead) and
/// pass through here unchanged, like a missing file.
pub fn apply_file<S>(data: PluginData<S>, outcome: FileOutcome) -> (r: PluginData<S>)
    ensures
        r@ == file_apply(data@, outcome@),
{
    let mut data = data;
    match outcome {
        FileOutcome::Missing => data,
        FileOutcome::Directory => data,
        FileOutcome::Unreadable => {
            data.response.status = crate::message::STATUS_INTERNAL_SERVER_ERROR;
            data
        },
        FileOutcome::Content(bytes) => {
            let len_str = u64_to_dec(bytes.len() as u64);
            set_header(&mut data.response.headers, "Content-Length", len_str);
            if !matches!(data.request.method, Method::Head) {
                data.response.body = Some(bytes);
            }
            data.response.status = crate::message::STATUS_OK;
            data
        },
    }
}

} // verus!
