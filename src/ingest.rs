use vstd::prelude::*;
use vstd::string::*;
use crate::paths::{join, joined};

verus! {

/// Why a whole upload failed.
#[derive(Debug, Clone, Copy, PartialEq, Eq, Structural)]
pub enum PayloadSaveErrType {
    SizeLimitExceed,
    FileNotAttached,
    FileSystemFail,
    ServerErr,
}

/// Why a single uploaded part was turned away; the rest of the upload goes on.
#[derive(Debug, Clone, Copy, PartialEq, Eq, Structural)]
pub enum PayloadFileFailType {
    TypeMismatch,
    FileErr,
}

impl PayloadSaveErrType {
    /// The numeric code that responses carry for this error.
    pub fn code(&self) -> (r: u32)
        ensures
            r == match *self {
                PayloadSaveErrType::SizeLimitExceed => 0u32,
                PayloadSaveErrType::FileNotAttached => 1u32,
                PayloadSaveErrType::FileSystemFail => 3u32,
                PayloadSaveErrType::ServerErr => 4u32,
            },
    {
        match *self {
            PayloadSaveErrType::SizeLimitExceed => 0,
            PayloadSaveErrType::FileNotAttached => 1,
            PayloadSaveErrType::FileSystemFail => 3,
            PayloadSaveErrType::ServerErr => 4,
        }
    }
}

impl PayloadFileFailType {
    /// The numeric code that responses carry for this failure.
    pub fn code(&self) -> (r: u32)
        ensures
            r == match *self {
                PayloadFileFailType::TypeMismatch => 0u32,
                PayloadFileFailType::FileErr => 1u32,
            },
    {
        match *self {
            PayloadFileFailType::TypeMismatch => 0,
            PayloadFileFailType::FileErr => 1,
        }
    }
}

/// The value of a run of decimal digits.
pub open spec fn digits_value(s: Seq<char>) -> int
    decreases s.len(),
{
    if s.len() == 0 {
        0
    } else {
        digits_value(s.drop_last()) * 10 + (s.last() as int - '0' as int)
    }
}

/// Every character is an ASCII decimal digit.
pub open spec fn all_digits(s: Seq<char>) -> bool {
    forall|i: int| 0 <= i < s.len() ==> '0' <= #[trigger] s[i] <= '9'
}

/// The `usize` that `s` spells in decimal, with an optional leading `+`; `None`
/// when `s` spells none.
pub open spec fn decimal_of(s: Seq<char>) -> Option<usize> {
    let d = if s.len() > 0 && s[0] == '+' {
        s.drop_first()
    } else {
        s
    };
    if d.len() > 0 && all_digits(d) && digits_value(d) <= usize::MAX {
        Some(digits_value(d) as usize)
    } else {
        None
    }
}

/// The length that a content-length header declares: its decimal value, or 0
/// when the header is absent or unreadable.
pub open spec fn declared_length_of(header: Option<Seq<char>>) -> usize {
    match header {
        Some(h) => match decimal_of(h) {
            Some(n) => n,
            None => 0,
        },
        None => 0,
    }
}

/// Relies on std's `usize::from_str`, which reads an optional `+` followed by one
/// or more decimal digits and fails on anything else or on a value that does not
/// fit.
#[verifier::external_body]
fn parse_usize(s: &str) -> (r: Option<usize>)
    ensures
        r == decimal_of(s@),
{
    s.parse::<usize>().ok()
}

/// The length declared by a content-length header: its decimal value, or 0 when
/// the header is absent or does not hold a number.
pub fn declared_length(header: Option<&str>) -> (r: usize)
    ensures
        r == declared_length_of(
            match header {
                Some(h) => Some(h@),
                None => None,
            },
        ),
{
    match header {
        Some(h) => match parse_usize(h) {
            Some(n) => n,
            None => 0,
        },
        None => 0,
    }
}

/// What an upload may hold: the accepted content types, the largest declared
/// body, and the most files kept.
pub struct UploadPolicy {
    pub allowed_types: Vec<String>,
    pub max_total_size: usize,
    pub max_file_count: usize,
}

impl UploadPolicy {
    /// The policy of the compress endpoint: GIF parts only, a declared body of at
    /// most 200,000,000 bytes, and at most ten files kept.
    pub fn gif_uploads() -> (r: UploadPolicy)
        ensures
            texts(r.allowed_types@) == seq!["image/gif"@],
            r.max_total_size == 200_000_000,
            r.max_file_count == 10,
    {
        let mut allowed_types: Vec<String> = Vec::new();
        allowed_types.push(String::from_str("image/gif"));
        proof {
            assert(texts(allowed_types@) =~= seq!["image/gif"@]);
        }
        UploadPolicy { allowed_types, max_total_size: 200_000_000, max_file_count: 10 }
    }
}

/// The views of a list of strings.
pub open spec fn texts(v: Seq<String>) -> Seq<Seq<char>> {
    v.map_values(|s: String| s@)
}

/// The view of an optional string.
pub open spec fn opt_text(o: Option<String>) -> Option<Seq<char>> {
    match o {
        Some(s) => Some(s@),
        None => None,
    }
}

/// A part's declared content type is one of `allowed`.
pub open spec fn type_allowed(allowed: Seq<Seq<char>>, content_type: Option<Seq<char>>) -> bool {
    content_type matches Some(t) && allowed.contains(t)
}

/// The name under which a rejected part is reported: its file name, or empty.
pub open spec fn reported_name(filename: Option<Seq<char>>) -> Seq<char> {
    match filename {
        Some(n) => n,
        None => Seq::empty(),
    }
}

/// A file name that names a file directly inside a directory: not empty, no `/`,
/// and neither `.` nor `..`.
pub open spec fn safe_file_name(n: Seq<char>) -> bool {
    &&& n.len() > 0
    &&& forall|i: int| 0 <= i < n.len() ==> #[trigger] n[i] != '/'
    &&& n != seq!['.']
    &&& n != seq!['.', '.']
}

/// Whether `name` names a file directly inside a directory.
pub fn is_safe_file_name(name: &String) -> (r: bool)
    ensures
        r == safe_file_name(name@),
{
    let s = name.as_str();
    let n = s.unicode_len();
    if n == 0 {
        return false;
    }
    let mut i: usize = 0;
    while i < n
        invariant
            n == s@.len(),
            s@ == name@,
            0 <= i <= n,
            forall|j: int| 0 <= j < i ==> s@[j] != '/',
        decreases n - i,
    {
        if s.get_char(i) == '/' {
            return false;
        }
        i = i + 1;
    }
    if n == 1 && s.get_char(0) == '.' {
        assert(s@ =~= seq!['.']);
        return false;
    }
    if n == 2 && s.get_char(0) == '.' && s.get_char(1) == '.' {
        assert(s@ =~= seq!['.', '.']);
        return false;
    }
    proof {
        if n == 1 {
            assert(s@ != seq!['.', '.']);
            if s@ == seq!['.'] {
                assert(s@[0] == '.');
            }
        }
        if n == 2 {
            if s@ == seq!['.', '.'] {
                assert(s@[0] == '.' && s@[1] == '.');
            }
        }
    }
    true
}

/// The views of a list of rejected parts.
pub open spec fn failures(v: Seq<(String, PayloadFileFailType)>) -> Seq<(Seq<char>, PayloadFileFailType)> {
    v.map_values(|f: (String, PayloadFileFailType)| (f.0@, f.1))
}

/// One upload in progress: where its files go, what it accepts, and what it has
/// stored and turned away so far, in arrival order.
pub struct PayloadSave {
    save_dir: String,
    allowed_types: Vec<String>,
    max_file_count: usize,
    accepted: Vec<String>,
    rejected: Vec<(String, PayloadFileFailType)>,
}

impl PayloadSave {
    /// The directory that receives the stored files.
    pub closed spec fn dir(&self) -> Seq<char> {
        self.save_dir@
    }

    /// The accepted content types.
    pub closed spec fn allowed(&self) -> Seq<Seq<char>> {
        texts(self.allowed_types@)
    }

    /// The most files that are stored.
    pub closed spec fn cap(&self) -> nat {
        self.max_file_count as nat
    }

    /// The paths of the files stored so far.
    pub closed spec fn accepted(&self) -> Seq<Seq<char>> {
        texts(self.accepted@)
    }

    /// The parts turned away so far, with the reason.
    pub closed spec fn rejected(&self) -> Seq<(Seq<char>, PayloadFileFailType)> {
        failures(self.rejected@)
    }

    /// No more files are stored than the cap allows.
    pub open spec fn within_cap(&self) -> bool {
        self.accepted().len() <= self.cap()
    }

    /// Both uploads have the same directory, content types and cap.
    pub open spec fn same_setup(&self, other: &PayloadSave) -> bool {
        &&& self.dir() == other.dir()
        &&& self.allowed() == other.allowed()
        &&& self.cap() == other.cap()
    }

    /// Opens an upload whose request declares `content_length` bytes, storing into
    /// `save_dir`. Fails with `SizeLimitExceed`, before anything is stored,
    /// exactly when the declared length is over the policy's limit.
    pub fn start(content_length: usize, save_dir: String, policy: UploadPolicy) -> (r: Result<
        PayloadSave,
        PayloadSaveErrType,
    >)
        ensures
            r is Err <==> content_length > policy.max_total_size,
            r matches Err(e) ==> e == PayloadSaveErrType::SizeLimitExceed,
            r matches Ok(p) ==> {
                &&& p.dir() == save_dir@
                &&& p.allowed() == texts(policy.allowed_types@)
                &&& p.cap() == policy.max_file_count
                &&& p.accepted() == Seq::<Seq<char>>::empty()
                &&& p.rejected() == Seq::<(Seq<char>, PayloadFileFailType)>::empty()
                &&& p.within_cap()
            },
    {
        if content_length > policy.max_total_size {
            return Err(PayloadSaveErrType::SizeLimitExceed);
        }
        let p = PayloadSave {
            save_dir,
            allowed_types: policy.allowed_types,
            max_file_count: policy.max_file_count,
            accepted: Vec::new(),
            rejected: Vec::new(),
        };
        proof {
            assert(p.accepted() =~= Seq::<Seq<char>>::empty());
            assert(p.rejected() =~= Seq::<(Seq<char>, PayloadFileFailType)>::empty());
        }
        Ok(p)
    }

    /// Whether another part may be read: fewer files than the cap are stored.
    pub fn wants_more(&self) -> (r: bool)
        ensures
            r == (self.accepted().len() < self.cap()),
    {
        self.accepted.len() < self.max_file_count
    }

    fn type_is_allowed(&self, content_type: &String) -> (r: bool)
        ensures
            r == self.allowed().contains(content_type@),
    {
        let mut i: usize = 0;
        while i < self.allowed_types.len()
            invariant
                0 <= i <= self.allowed_types@.len(),
                forall|j: int| 0 <= j < i ==> self.allowed_types@[j]@ != content_type@,
            decreases self.allowed_types@.len() - i,
        {
            if self.allowed_types[i] == *content_type {
                assert(self.allowed()[i as int] == content_type@);
                return true;
            }
            i = i + 1;
        }
        proof {
            if self.allowed().contains(content_type@) {
                let j = choose|j: int| 0 <= j < self.allowed().len() && self.allowed()[j] == content_type@;
                assert(self.allowed_types@[j]@ == content_type@);
            }
        }
        false
    }

    fn reject(&mut self, name: String, why: PayloadFileFailType)
        ensures
            final(self).same_setup(old(self)),
            final(self).accepted() == old(self).accepted(),
            final(self).rejected() == old(self).rejected().push((name@, why)),
    {
        self.rejected.push((name, why));
        proof {
            assert(self.rejected() =~= old(self).rejected().push((name@, why)));
        }
    }

    /// Decides on the next part from its declared content type and file name. A
    /// part of a type that is not accepted is recorded as `TypeMismatch`; one with no
    /// file name, or with a name that would leave the directory (empty, holding `/`,
    /// `.` or `..`), as `FileErr`; and `None` comes back. Otherwise the path to store
    /// it at comes back, the file name inside the directory, and nothing is recorded
    /// until the caller reports how storing went.
    pub fn on_part(&mut self, content_type: Option<String>, filename: Option<String>) -> (r: Option<String>)
        ensures
            final(self).same_setup(old(self)),
            final(self).accepted() == old(self).accepted(),
            !type_allowed(old(self).allowed(), opt_text(content_type)) ==> {
                &&& r is None
                &&& final(self).rejected() == old(self).rejected().push(
                    (reported_name(opt_text(filename)), PayloadFileFailType::TypeMismatch),
                )
            },
            type_allowed(old(self).allowed(), opt_text(content_type)) && filename is None ==> {
                &&& r is None
                &&& final(self).rejected() == old(self).rejected().push(
                    (Seq::<char>::empty(), PayloadFileFailType::FileErr),
                )
            },
            type_allowed(old(self).allowed(), opt_text(content_type)) && filename is Some && !safe_file_name(
                filename->Some_0@,
            ) ==> {
                &&& r is None
                &&& final(self).rejected() == old(self).rejected().push(
                    (filename->Some_0@, PayloadFileFailType::FileErr),
                )
            },
            type_allowed(old(self).allowed(), opt_text(content_type)) && filename is Some && safe_file_name(
                filename->Some_0@,
            ) ==> {
                &&& r matches Some(dest) && dest@ == joined(old(self).dir(), filename->Some_0@)
                &&& final(self).rejected() == old(self).rejected()
            },
    {
        let allowed = match &content_type {
            Some(t) => self.type_is_allowed(t),
            None => false,
        };
        if !allowed {
            let name = match filename {
                Some(n) => n,
                None => String::new(),
            };
            self.reject(name, PayloadFileFailType::TypeMismatch);
            return None;
        }
        match filename {
            Some(n) => {
                if is_safe_file_name(&n) {
                    Some(join(&self.save_dir, &n))
                } else {
                    self.reject(n, PayloadFileFailType::FileErr);
                    None
                }
            },
            None => {
                self.reject(String::new(), PayloadFileFailType::FileErr);
                None
            },
        }
    }

    /// Records that a part was stored at `path`; only while fewer files than the
    /// cap are stored.
    pub fn on_stored(&mut self, path: String)
        requires
            old(self).accepted().len() < old(self).cap(),
        ensures
            final(self).same_setup(old(self)),
            final(self).accepted() == old(self).accepted().push(path@),
            final(self).rejected() == old(self).rejected(),
    {
        self.accepted.push(path);
        proof {
            assert(self.accepted() =~= old(self).accepted().push(path@));
        }
    }

    /// Records that the part named `filename` could not be stored.
    pub fn on_store_failed(&mut self, filename: String)
        ensures
            final(self).same_setup(old(self)),
            final(self).accepted() == old(self).accepted(),
            final(self).rejected() == old(self).rejected().push(
                (filename@, PayloadFileFailType::FileErr),
            ),
    {
        self.reject(filename, PayloadFileFailType::FileErr);
    }

    /// Ends the upload. With no file stored, the whole upload fails with
    /// `FileNotAttached` (the caller then removes the directory); otherwise it
    /// succeeds with exactly the stored paths and the rejected parts, whatever else
    /// was turned away.
    pub fn finish(self) -> (r: Result<(Vec<String>, Vec<(String, PayloadFileFailType)>), PayloadSaveErrType>)
        requires
            self.within_cap(),
        ensures
            r matches Ok(v) ==> v.0@.len() <= self.cap(),
            r is Err <==> self.accepted().len() == 0,
            r matches Err(e) ==> e == PayloadSaveErrType::FileNotAttached,
            r matches Ok(v) ==> texts(v.0@) == self.accepted() && failures(v.1@) == self.rejected(),
    {
        if self.accepted.len() == 0 {
            return Err(PayloadSaveErrType::FileNotAttached);
        }
        Ok((self.accepted, self.rejected))
    }
}

/// An upload in which no part is stored fails as a whole: starting from nothing
/// stored, steps that each leave the stored files as they were (turning a part
/// away, or failing to store it) end with nothing stored, so `finish` returns
/// `FileNotAttached`.
pub proof fn lemma_all_rejected_stores_nothing(steps: Seq<PayloadSave>)
    requires
        steps.len() >= 1,
        steps[0].accepted().len() == 0,
        forall|i: int| 0 <= i < steps.len() - 1 ==> (#[trigger] steps[i + 1]).accepted() == steps[i].accepted(),
    ensures
        steps.last().accepted().len() == 0,
    decreases steps.len(),
{
    if steps.len() > 1 {
        let shorter = steps.drop_last();
        assert forall|i: int| 0 <= i < shorter.len() - 1 implies (#[trigger] shorter[i + 1]).accepted()
            == shorter[i].accepted() by {
            assert(steps[i + 1].accepted() == steps[i].accepted());
        }
        lemma_all_rejected_stores_nothing(shorter);
        let k = steps.len() - 2;
        assert(steps[k + 1].accepted() == steps[k].accepted());
        assert(shorter.last() == steps[k]);
    }
}

} // verus!
