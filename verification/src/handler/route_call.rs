//! Handing a request to plugins, and what it carries.
use crate::collections;
use crate::collections::StrMap;
use crate::handler::route;
use crate::handler::route::{count_in, ReadError};
use crate::handler::web_response::{conv_response, Sent, WebResponse};
use crate::item::{Item, ItemView};
use crate::text;
use crate::text::{cat3, chars_of, decimal_string, piece, same, text_of};
use vstd::prelude::*;

verus! {

/// What is sent for what the plugins answered a request without a body. Where
/// none answers to the route, there is nothing there.
pub fn call_url_route(wr: WebResponse, file_exists: bool) -> (r: Sent)
    ensures
        wr is NotImplemented ==> r == Sent::Status(404),
        wr is OkData ==> r == Sent::Text(wr->OkData_0),
        wr is Success || wr is Logout || wr is Login || wr is OkFile ==> r == Sent::Status(200),
        wr is OkFilePath ==> r == (if file_exists {
            Sent::File(wr->OkFilePath_1)
        } else {
            Sent::Status(404)
        }),
        wr is NotFound ==> r == Sent::Status(404),
        wr is Unauthorized ==> r == Sent::Status(401),
        wr is BadRequest ==> r == Sent::Status(400),
        wr is Forbidden ==> r == Sent::Status(403),
{
    match wr {
        WebResponse::NotImplemented => Sent::Status(404),
        other => conv_response(other, file_exists),
    }
}

/// The answer to a request with a body. Where no plugin answers, the body was
/// taken all the same.
pub fn taken(wr: WebResponse) -> (r: WebResponse)
    ensures
        r == (match wr {
            WebResponse::NotImplemented => WebResponse::Success,
            _ => wr,
        }),
        !(r is NotImplemented),
{
    match wr {
        WebResponse::NotImplemented => WebResponse::Success,
        other => other,
    }
}

/// What is sent for what the plugins answered a request with a body.
pub fn call_url_post_route(wr: WebResponse, file_exists: bool) -> (r: Sent)
    ensures
        wr is NotImplemented ==> r == Sent::Status(200),
        wr is OkData ==> r == Sent::Text(wr->OkData_0),
        wr is Success || wr is Logout || wr is Login || wr is OkFile ==> r == Sent::Status(200),
        wr is OkFilePath ==> r == (if file_exists {
            Sent::File(wr->OkFilePath_1)
        } else {
            Sent::Status(404)
        }),
        wr is NotFound ==> r == Sent::Status(404),
        wr is Unauthorized ==> r == Sent::Status(401),
        wr is BadRequest ==> r == Sent::Status(400),
        wr is Forbidden ==> r == Sent::Status(403),
{
    conv_response(taken(wr), file_exists)
}

// ---------------------------------------------------------------------------
// Uploads
// ---------------------------------------------------------------------------

/// The directory that uploads are put under.
pub const UPLOAD_ROOT: &'static str = "./tmp";

/// Whether a file name can hold a character, on any system.
pub open spec fn file_name_char(c: char) -> bool {
    &&& c != '/' && c != '?' && c != '<' && c != '>' && c != '\\' && c != ':' && c != '*' && c
        != '|' && c != '"'
    &&& c > '\u{1f}' && !('\u{80}' <= c && c <= '\u{9f}')
}

/// The characters of a name that a file name can hold.
pub open spec fn kept(name: Seq<char>) -> Seq<char> {
    name.filter(|c: char| file_name_char(c))
}

/// Whether there is nothing but dots in a name.
pub open spec fn all_dots(name: Seq<char>) -> bool {
    forall|i: int| 0 <= i < name.len() ==> (#[trigger] name[i]) == '.'
}

/// What stands before the first dot of a name.
pub open spec fn stem(name: Seq<char>) -> Seq<char> {
    name.take(text::position(name, '.', 0))
}

/// Whether a name stands for a device on Windows, whatever follows its first dot.
pub open spec fn device(name: Seq<char>) -> bool {
    let s = text::ascii_lower(stem(name));
    ||| s == "con"@
    ||| s == "prn"@
    ||| s == "aux"@
    ||| s == "nul"@
    ||| s.len() == 4 && (s.take(3) == "com"@ || s.take(3) == "lpt"@) && '0' <= s[3] <= '9'
}

/// A name without the dots and spaces at its end.
pub open spec fn without_tail(name: Seq<char>) -> Seq<char>
    decreases name.len(),
{
    if name.len() > 0 && (name.last() == '.' || name.last() == ' ') {
        without_tail(name.drop_last())
    } else {
        name
    }
}

/// What is left of a name on a system: nothing of one that is all dots, and on
/// Windows nothing of the name of a device and no dots and spaces at the end.
pub open spec fn left_of(name: Seq<char>, windows: bool) -> Seq<char> {
    let left = if all_dots(kept(name)) {
        Seq::empty()
    } else {
        kept(name)
    };
    if !windows {
        left
    } else if device(left) {
        Seq::empty()
    } else {
        without_tail(left)
    }
}

/// Whether a name takes no more bytes than a file name may.
pub open spec fn fits(name: Seq<char>) -> bool {
    vstd::utf8::encode_utf8(name).len() <= 255
}

/// Whether this is as much of the start of a name as fits.
pub open spec fn cut_to_fit(name: Seq<char>, r: Seq<char>) -> bool {
    &&& r.is_prefix_of(name)
    &&& fits(r)
    &&& r.len() < name.len() ==> !fits(name.take(r.len() as int + 1))
}

/// Whether a name is a file name as it is on every system.
pub open spec fn fits_everywhere(name: Seq<char>) -> bool {
    &&& fits(name)
    &&& name.len() > 0
    &&& name.last() != '.'
    &&& name.last() != ' '
    &&& !device(name)
}

/// `sanitize_filename::sanitize`: what is left of the name on this system, as much
/// of its start as fits. It is a start of what a file name can hold of the name,
/// all of that where it is a file name on every system, and never the name of a
/// directory itself or of the one above. Which system this is, is left unsaid.
#[verifier::external_body]
fn sanitize(name: &str) -> (r: String)
    ensures
        cut_to_fit(left_of(name@, false), r@) || cut_to_fit(left_of(name@, true), r@),
        r@.len() <= 255,
        r@.is_prefix_of(kept(name@)),
        forall|i: int|
            0 <= i < r@.len() ==> file_name_char(#[trigger] r@[i]) && name@.contains(r@[i]),
        r@ != "."@,
        r@ != ".."@,
        fits_everywhere(kept(name@)) ==> r@ == kept(name@),
        all_dots(kept(name@)) ==> r@.len() == 0,
{
    sanitize_filename::sanitize(name)
}

/// `uuid::Uuid::new_v4`, in its usual form: 36 characters, each a small
/// hexadecimal digit or a dash. Which, is up to chance.
#[verifier::external_body]
fn fresh_uuid() -> (r: String)
    ensures
        r@.len() == 36,
        forall|i: int|
            0 <= i < 36 ==> ('0' <= (#[trigger] r@[i]) && r@[i] <= '9') || ('a' <= r@[i] && r@[i]
                <= 'f') || r@[i] == '-',
{
    uuid::Uuid::new_v4().to_string()
}

/// What was read of a request so far.
pub struct Upload {
    item: Item,
    files: StrMap<String>,
    count: u64,
    total: usize,
    max_bytes: usize,
    dir: String,
}

/// What was read of a request so far.
#[verifier::ext_equal]
pub struct UploadView {
    pub item: ItemView,
    /// The files by their number.
    pub files: Map<Seq<char>, Seq<char>>,
    pub count: u64,
    pub total: usize,
    pub max_bytes: usize,
    /// The directory of this request.
    pub dir: Seq<char>,
}

impl View for Upload {
    type V = UploadView;

    closed spec fn view(&self) -> UploadView {
        UploadView {
            item: self.item@,
            files: self.files@,
            count: self.count,
            total: self.total,
            max_bytes: self.max_bytes,
            dir: self.dir@,
        }
    }
}

impl UploadView {
    /// What always holds: the files are numbered from nothing on, and each is in
    /// the directory of this request.
    pub open spec fn valid(self) -> bool {
        &&& self.total <= self.max_bytes
        &&& forall|k: Seq<char>| #[trigger]
            self.files.contains_key(k) ==> (self.dir + "/"@).is_prefix_of(self.files[k])
        &&& self.count == 0 <==> self.files.dom() == Set::<Seq<char>>::empty()
    }

    /// The item as the plugins see it.
    pub open spec fn finished(self) -> ItemView {
        if self.count > 0 {
            self.item.with_strstr("multipart-files"@, self.files)
        } else {
            self.item
        }
    }
}

/// The text of a field that holds an item: one without anything in it where the
/// field is no text.
pub fn item_text(field: Vec<u8>) -> (r: String)
    ensures
        r@ == (if vstd::utf8::valid_utf8(field@) {
            vstd::utf8::decode_utf8(field@)
        } else {
            "{}"@
        }),
{
    match text_of(field) {
        Some(t) => t,
        None => "{}".to_string(),
    }
}

impl Upload {
    /// Before anything was read of a request that goes by this id.
    pub fn begin_in(max_bytes: usize, id: &str) -> (r: Upload)
        ensures
            r@.item == ItemView::empty(),
            r@.files == Map::<Seq<char>, Seq<char>>::empty(),
            r@.count == 0,
            r@.total == 0,
            r@.max_bytes == max_bytes,
            r@.dir == UPLOAD_ROOT@ + "/"@ + id@,
            r@.valid(),
    {
        let u = Upload {
            item: Item::new(),
            files: StrMap::new(),
            count: 0,
            total: 0,
            max_bytes,
            dir: cat3(UPLOAD_ROOT, "/", id),
        };
        proof {
            assert(u@.files.dom() =~= Set::<Seq<char>>::empty());
        }
        u
    }

    /// Before anything was read. Each request goes by an id of its own, drawn by
    /// chance, so that files of one name do not meet.
    pub fn begin(max_bytes: usize) -> (r: Upload)
        ensures
            r@.item == ItemView::empty(),
            r@.files == Map::<Seq<char>, Seq<char>>::empty(),
            r@.count == 0,
            r@.total == 0,
            r@.max_bytes == max_bytes,
            (UPLOAD_ROOT@ + "/"@).is_prefix_of(r@.dir),
            r@.dir.len() == UPLOAD_ROOT@.len() + 37,
            r@.valid(),
    {
        let id = fresh_uuid();
        let u = Upload::begin_in(max_bytes, id.as_str());
        proof {
            reveal_strlit("/");
            let head = UPLOAD_ROOT@ + "/"@;
            assert(u@.dir.subrange(0, head.len() as int) =~= head);
        }
        u
    }

    /// The directory of this request. It is made when the first file comes.
    pub fn directory(&self) -> (r: String)
        ensures
            r@ == self@.dir,
    {
        self.dir.clone()
    }

    /// Whether no file came yet: the directory is made only when the first does, so
    /// that a request without files leaves nothing behind.
    pub fn without_files(&self) -> (r: bool)
        ensures
            r == (self@.count == 0),
    {
        self.count == 0
    }

    /// Counts a chunk in, of whatever field.
    pub fn chunk(&mut self, len: usize) -> (r: Result<(), ReadError>)
        requires
            old(self)@.valid(),
        ensures
            final(self)@.valid(),
            if route::grown(old(self)@.total, len) > old(self)@.max_bytes {
                r matches Err(ReadError::TooLarge(n)) && n == route::grown(old(self)@.total, len)
                    && final(self)@ == old(self)@
            } else {
                r is Ok && final(self)@ == (UploadView {
                    total: route::grown(old(self)@.total, len),
                    ..old(self)@
                })
            },
    {
        match count_in(self.total, len, self.max_bytes) {
            Ok(n) => {
                self.total = n;
                Ok(())
            },
            Err(e) => Err(e),
        }
    }

    /// Takes the item in that a field holds, over what was there.
    pub fn item_field(&mut self, new_itm: &Item)
        requires
            old(self)@.valid(),
        ensures
            final(self)@.valid(),
            final(self)@ == (UploadView {
                item: old(self)@.item.numbered(new_itm@.id).overlaid(new_itm@),
                ..old(self)@
            }),
    {
        self.item.id = new_itm.id;
        self.item.merge(new_itm);
        proof {
            assert(self@ =~= UploadView {
                item: old(self)@.item.numbered(new_itm@.id).overlaid(new_itm@),
                ..old(self)@
            });
        }
    }

    /// Takes a file in, and returns the path it is written to: in the directory
    /// of this request, under a name made of the one it came with, or a name of
    /// its own where it came with none.
    pub fn file_field(&mut self, filename: Option<&str>) -> (r: String)
        requires
            old(self)@.valid(),
            old(self)@.count < u64::MAX,
        ensures
            final(self)@.valid(),
            (old(self)@.dir + "/"@).is_prefix_of(r@),
            !r@.skip(old(self)@.dir.len() as int + 1).contains('/'),
            forall|i: int|
                old(self)@.dir.len() + 1 <= i < r@.len() ==> file_name_char(#[trigger] r@[i]) && (
                filename is Some ==> filename->Some_0@.contains(r@[i])),
            r@.skip(old(self)@.dir.len() as int + 1) != "."@,
            r@.skip(old(self)@.dir.len() as int + 1) != ".."@,
            r@.len() <= old(self)@.dir.len() + 256,
            filename is Some ==> ({
                let n = filename->Some_0@;
                let made = r@.skip(old(self)@.dir.len() as int + 1);
                &&& cut_to_fit(left_of(n, false), made) || cut_to_fit(left_of(n, true), made)
                &&& made.is_prefix_of(kept(n))
            }),
            filename is Some && fits_everywhere(kept(filename->Some_0@)) ==> r@ == old(self)@.dir
                + "/"@ + kept(filename->Some_0@),
            filename is Some && all_dots(kept(filename->Some_0@)) ==> r@ == old(self)@.dir + "/"@,
            filename is None ==> r@.len() == old(self)@.dir.len() + 37,
            final(self)@ == (UploadView {
                files: old(self)@.files.insert(text::decimal(old(self)@.count as nat), r@),
                count: (old(self)@.count + 1) as u64,
                ..old(self)@
            }),
    {
        let name = match filename {
            Some(f) => sanitize(f),
            None => fresh_uuid(),
        };
        let path = cat3(self.dir.as_str(), "/", name.as_str());
        proof {
            reveal_strlit("/");
            reveal_strlit(".");
            reveal_strlit("..");
            let head = self.dir@ + "/"@;
            assert(path@.subrange(0, head.len() as int) =~= head);
            let at = self.dir@.len() as int + 1;
            assert(path@.skip(at) =~= name@);
            assert forall|i: int| at <= i < path@.len() implies #[trigger] path@[i] == name@[i
                - at] by {}
            if name@.contains('/') {
                let i = choose|i: int| 0 <= i < name@.len() && name@[i] == '/';
            }
        }
        self.files.insert(decimal_string(self.count), path.clone());
        self.count = self.count + 1;
        proof {
            let k = text::decimal(old(self)@.count as nat);
            assert(self@.files.contains_key(k));
            assert(self@.files.dom().contains(k));
        }
        path
    }

    /// The item that the request brought, with its files where it brought any.
    pub fn finish(self) -> (r: (Item, StrMap<String>))
        ensures
            r.0@ == self@.finished(),
            r.1@ == self@.files,
    {
        let mut item = self.item;
        if self.count > 0 {
            item.set_strstr("multipart-files", &self.files);
        }
        (item, self.files)
    }

    /// The files that were begun, of a request that is refused.
    pub fn abandon(self) -> (r: StrMap<String>)
        ensures
            r@ == self@.files,
    {
        self.files
    }
}

/// The directory of a path: what stands before its last separator.
pub open spec fn directory_of(path: Seq<char>) -> Option<Seq<char>>
    decreases path.len(),
{
    if path.len() == 0 {
        None
    } else if path.last() == '/' {
        Some(path.drop_last())
    } else {
        directory_of(path.drop_last())
    }
}

fn parent_of(path: &str) -> (r: Option<String>)
    ensures
        match r {
            Some(d) => directory_of(path@) == Some(d@),
            None => directory_of(path@) is None,
        },
{
    let cs = chars_of(path);
    let mut i: usize = cs.len();
    proof {
        assert(path@.take(i as int) =~= path@);
    }
    while i > 0 && cs[i - 1] != '/'
        invariant
            i <= cs.len(),
            cs@ == path@,
            directory_of(path@) == directory_of(path@.take(i as int)),
        decreases i,
    {
        proof {
            let head = path@.take(i as int);
            assert(head.drop_last() =~= path@.take(i - 1));
            assert(head.last() == path@[i - 1]);
        }
        i = i - 1;
    }
    if i == 0 {
        return None;
    }
    proof {
        let head = path@.take(i as int);
        assert(head.last() == path@[i - 1]);
        assert(head.drop_last() =~= path@.subrange(0, i - 1));
    }
    Some(piece(&cs, 0, i - 1))
}

fn is_listed(names: &Vec<String>, name: &str) -> (r: bool)
    ensures
        r == text::views(names@).contains(name@),
{
    let mut i: usize = 0;
    while i < names.len()
        invariant
            i <= names.len(),
            forall|j: int| 0 <= j < i ==> (#[trigger] names@[j])@ != name@,
        decreases names.len() - i,
    {
        if same(names[i].as_str(), name) {
            proof {
                assert(text::views(names@)[i as int] == name@);
            }
            return true;
        }
        i = i + 1;
    }
    proof {
        if text::views(names@).contains(name@) {
            let j = choose|j: int| 0 <= j < names@.len() && text::views(names@)[j] == name@;
            assert(names@[j]@ == name@);
        }
    }
    false
}

/// What is removed once a request is done: every file it brought, and then every
/// directory that they were in, each once. A directory is removed only where it
/// is empty by then.
pub fn handle_file_cleanup(files: &StrMap<String>) -> (r: (Vec<String>, Vec<String>))
    ensures
        forall|p: Seq<char>| #[trigger]
            text::views(r.0@).contains(p) <==> exists|k: Seq<char>| #[trigger]
                files@.contains_key(k) && files@[k] == p,
        forall|d: Seq<char>| #[trigger]
            text::views(r.1@).contains(d) <==> exists|k: Seq<char>| #[trigger]
                files@.contains_key(k) && directory_of(files@[k]) == Some(d),
        text::views(r.1@).no_duplicates(),
{
    let n: usize = files.len();
    let ghost all = files.pairs();
    let mut paths: Vec<String> = Vec::new();
    let mut dirs: Vec<String> = Vec::new();
    let mut i: usize = 0;
    proof {
        assert(text::views(dirs@) =~= Seq::<Seq<char>>::empty());
    }
    while i < n
        invariant
            i <= n,
            n == all.len(),
            all == files.pairs(),
            paths@.len() == i,
            forall|j: int| 0 <= j < i ==> (#[trigger] paths@[j])@ == all[j].1,
            forall|d: Seq<char>| #[trigger]
                text::views(dirs@).contains(d) <==> exists|j: int|
                    0 <= j < i && directory_of((#[trigger] all[j]).1) == Some(d),
            text::views(dirs@).no_duplicates(),
        decreases n - i,
    {
        let path = files.value(i);
        let ghost had = text::views(dirs@);
        match parent_of(path.as_str()) {
            Some(d) => {
                let ghost new = d@;
                if !is_listed(&dirs, d.as_str()) {
                    dirs.push(d);
                    proof {
                        assert(text::views(dirs@) =~= had.push(new));
                    }
                }
                proof {
                    let now = text::views(dirs@);
                    assert forall|x: Seq<char>| now.contains(x) <==> had.contains(x) || x == new by {
                        if had.contains(x) {
                            let a = choose|a: int| 0 <= a < had.len() && had[a] == x;
                            assert(now[a] == x);
                        }
                        if x == new && !had.contains(new) {
                            assert(now[had.len() as int] == x);
                        }
                    }
                }
            },
            None => {},
        }
        proof {
            let now = text::views(dirs@);
            assert forall|d: Seq<char>| #[trigger] now.contains(d) <==> exists|j: int|
                0 <= j < i + 1 && directory_of((#[trigger] all[j]).1) == Some(d) by {
                assert(had.contains(d) <==> exists|j: int|
                    0 <= j < i && directory_of((#[trigger] all[j]).1) == Some(d));
                if had.contains(d) {
                    let j = choose|j: int|
                        0 <= j < i && directory_of((#[trigger] all[j]).1) == Some(d);
                    assert(0 <= j < i + 1 && directory_of(all[j].1) == Some(d));
                }
                if directory_of(all[i as int].1) == Some(d) {
                    assert(now.contains(d));
                }
            }
        }
        paths.push(path.clone());
        i = i + 1;
    }
    proof {
        assert forall|p: Seq<char>| #[trigger] text::views(paths@).contains(p) <==> exists|k: Seq<char>| #[trigger]
            files@.contains_key(k) && files@[k] == p by {
            if text::views(paths@).contains(p) {
                let j = choose|j: int| 0 <= j < n && text::views(paths@)[j] == p;
                assert(paths@[j]@ == all[j].1);
                collections::map_of_has(all, j);
                assert(files@.contains_key(all[j].0) && files@[all[j].0] == p);
            }
            if exists|k: Seq<char>| #[trigger] files@.contains_key(k) && files@[k] == p {
                let k = choose|k: Seq<char>| #[trigger] files@.contains_key(k) && files@[k] == p;
                let j = collections::map_of_from(all, k);
                assert(paths@[j]@ == p);
                assert(text::views(paths@)[j] == p);
            }
        }
        assert forall|d: Seq<char>| #[trigger] text::views(dirs@).contains(d) <==> exists|k: Seq<char>| #[trigger]
            files@.contains_key(k) && directory_of(files@[k]) == Some(d) by {
            if text::views(dirs@).contains(d) {
                let j = choose|j: int| 0 <= j < n && directory_of((#[trigger] all[j]).1) == Some(d);
                collections::map_of_has(all, j);
                assert(files@.contains_key(all[j].0));
            }
            if exists|k: Seq<char>| #[trigger]
                files@.contains_key(k) && directory_of(files@[k]) == Some(d) {
                let k = choose|k: Seq<char>| #[trigger]
                    files@.contains_key(k) && directory_of(files@[k]) == Some(d);
                let j = collections::map_of_from(all, k);
                assert(directory_of(all[j].1) == Some(d));
            }
        }
    }
    (paths, dirs)
}

/// Cleaning up after a request reaches no directory but that of the request.
pub proof fn cleanup_stays_within(dir: Seq<char>, name: Seq<char>)
    requires
        !name.contains('/'),
    ensures
        directory_of(dir + "/"@ + name) == Some(dir),
    decreases name.len(),
{
    reveal_strlit("/");
    let path = dir + "/"@ + name;
    if name.len() == 0 {
        assert(path.last() == '/');
        assert(path.drop_last() =~= dir);
    } else {
        assert(path.last() == name.last());
        assert(name[name.len() - 1] == name.last());
        assert(path.drop_last() =~= dir + "/"@ + name.drop_last());
        assert(!name.drop_last().contains('/')) by {
            if name.drop_last().contains('/') {
                let i = choose|i: int| 0 <= i < name.drop_last().len() && name.drop_last()[i] == '/';
                assert(name[i] == '/');
            }
        }
        cleanup_stays_within(dir, name.drop_last());
    }
}

/// What a plugin sees of an upload is the item, with its files where there are any.
pub proof fn what_an_upload_brings(u: UploadView, k: Seq<char>)
    ensures
        u.count == 0 ==> u.finished() == u.item,
        u.count > 0 ==> u.finished().strstrs.contains_key("multipart-files"@)
            && u.finished().strstrs["multipart-files"@] == u.files,
        u.finished().strs == u.item.strs,
        u.finished().id == u.item.id,
        k != "multipart-files"@ ==> u.finished().strstrs.get(k) == u.item.strstrs.get(k),
{
}

/// The directory of a path is what stands before its last slash; a path without one has
/// none.
pub proof fn where_a_path_is(dir: Seq<char>, name: Seq<char>)
    requires
        !name.contains('/'),
    ensures
        directory_of(dir + "/"@ + name) == Some(dir),
        directory_of(name) is None,
    decreases name.len(),
{
    cleanup_stays_within(dir, name);
    nowhere(name);
}

proof fn nowhere(name: Seq<char>)
    requires
        !name.contains('/'),
    ensures
        directory_of(name) is None,
    decreases name.len(),
{
    if name.len() > 0 {
        assert(name.contains(name.last()));
        let head = name.drop_last();
        assert(!head.contains('/')) by {
            if head.contains('/') {
                let i = choose|i: int| 0 <= i < head.len() && head[i] == '/';
                assert(name[i] == '/');
            }
        }
        nowhere(head);
    }
}

/// What a file name holds of a name is of the name, in its order, and leads nowhere: it
/// has no character that parts a path, names a drive or a stream, stands for others,
/// ends a line or cannot be seen. Nothing else is left out.
pub proof fn what_a_file_name_holds(name: Seq<char>, c: char)
    ensures
        kept(name).contains(c) <==> name.contains(c) && file_name_char(c),
        file_name_char(c) ==> c != '/' && c != '\\' && c != ':' && c != '*' && c != '?' && c != '"'
            && c != '<' && c != '>' && c != '|' && c as u32 >= 0x20,
        c == ' ' || c == '.' || c == '-' || c == '_' || ('a' <= c && c <= 'z') || ('A' <= c && c
            <= 'Z') || ('0' <= c && c <= '9') || c as u32 > 0x9f ==> file_name_char(c),
        0x80 <= c as u32 && c as u32 <= 0x9f || (c as u32) < 0x20 ==> !file_name_char(c),
{
    let p = |c: char| file_name_char(c);
    if name.contains(c) && file_name_char(c) {
        let i = choose|i: int| 0 <= i < name.len() && name[i] == c;
        assert(p(name[i]));
        name.lemma_filter_contains(p, i);
    }
    if kept(name).contains(c) {
        let i = choose|i: int| 0 <= i < kept(name).len() && kept(name)[i] == c;
        name.lemma_filter_pred(p, i);
        name.lemma_filter_contains_rev(p, c);
    }
}

} // verus!
