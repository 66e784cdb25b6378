//! Image names: `user/repository:tag` with a defaulted tag and an optional
//! user part.

use vstd::prelude::*;
use vstd::string::*;

use crate::errors::ImgError;

verus! {

/// An image coordinate: optional user, repository, and tag.
#[derive(Debug, Clone, PartialEq, Eq)]
pub struct ImageName {
    /// The part before the `/`, when there is one.
    pub user: Option<String>,
    /// The repository name.
    pub repository: String,
    /// The tag; `latest` when the name carries none.
    pub tag: String,
}

/// Mathematical model of an [`ImageName`].
#[verifier::ext_equal]
pub struct ImageNameModel {
    pub user: Option<Seq<char>>,
    pub repository: Seq<char>,
    pub tag: Seq<char>,
}

impl View for ImageName {
    type V = ImageNameModel;

    open spec fn view(&self) -> ImageNameModel {
        ImageNameModel {
            user: match self.user {
                Some(u) => Some(u@),
                None => None,
            },
            repository: self.repository@,
            tag: self.tag@,
        }
    }
}

/// An ASCII letter or digit.
pub open spec fn is_alnum_char(c: char) -> bool {
    (48 <= c as u32 <= 57) || (65 <= c as u32 <= 90) || (97 <= c as u32 <= 122)
}

/// A character an image name may hold.
pub open spec fn allowed_char(c: char) -> bool {
    is_alnum_char(c) || c == '-' || c == '_' || c == '.' || c == '/' || c == ':'
}

/// Index of the first occurrence of `c` in `s`, or `s.len()` when absent.
pub open spec fn find_char(s: Seq<char>, c: char) -> int
    decreases s.len(),
{
    if s.len() == 0 {
        0
    } else if s[0] == c {
        0
    } else {
        1 + find_char(s.subrange(1, s.len() as int), c)
    }
}

/// How often `c` occurs in `s`.
pub open spec fn count_char(s: Seq<char>, c: char) -> int
    decreases s.len(),
{
    if s.len() == 0 {
        0int
    } else {
        count_char(s.drop_last(), c) + if s.last() == c {
            1int
        } else {
            0int
        }
    }
}

/// `find_char` is pinned down by first-occurrence facts.
pub proof fn lemma_find_char_unique(s: Seq<char>, c: char, f: int)
    requires
        0 <= f <= s.len(),
        forall|i: int| 0 <= i < f ==> s[i] != c,
        f < s.len() ==> s[f] == c,
    ensures
        find_char(s, c) == f,
    decreases s.len(),
{
    if s.len() == 0 {
    } else if s[0] == c {
        assert(f == 0);
    } else {
        let t = s.subrange(1, s.len() as int);
        lemma_find_char_unique(t, c, f - 1);
    }
}

proof fn lemma_count_char_take_step(s: Seq<char>, c: char, i: int)
    requires
        0 <= i < s.len(),
    ensures
        count_char(s.take(i + 1), c) == count_char(s.take(i), c) + if s[i] == c {
            1int
        } else {
            0int
        },
{
    assert(s.take(i + 1).drop_last() =~= s.take(i));
    assert(s.take(i + 1).last() == s[i]);
}

/// Result of parsing an image name, mirroring the acceptance rules: only
/// letters, digits and `- _ . / :`; at least one letter or digit; no
/// leading `:` or `/`; at most one `:` and one `/`; a nonempty tag,
/// `latest` when absent; the part before a `/` is the user.
pub open spec fn spec_parse_image_name(s: Seq<char>) -> Option<ImageNameModel> {
    if !(forall|i: int| 0 <= i < s.len() ==> allowed_char(#[trigger] s[i])) {
        None
    } else if !(exists|i: int| 0 <= i < s.len() && is_alnum_char(#[trigger] s[i])) {
        None
    } else if s[0] == ':' || s[0] == '/' {
        None
    } else if count_char(s, ':') > 1 || count_char(s, '/') > 1 {
        None
    } else {
        let j = find_char(s, ':');
        let base = if j < s.len() {
            s.take(j)
        } else {
            s
        };
        let tagp = if j < s.len() {
            s.skip(j + 1)
        } else {
            "latest"@
        };
        if tagp.len() == 0 {
            None
        } else {
            let k = find_char(base, '/');
            if k < base.len() {
                Some(
                    ImageNameModel {
                        user: Some(base.take(k)),
                        repository: base.skip(k + 1),
                        tag: tagp,
                    },
                )
            } else {
                Some(ImageNameModel { user: None, repository: base, tag: tagp })
            }
        }
    }
}

impl ImageName {
    /// `user/repository`, or just the repository without a user.
    pub fn to_base_name(&self) -> (r: String)
        ensures
            r@ == spec_base_name(self@),
    {
        let mut res = String::new();
        match &self.user {
            Some(user) => {
                res.append(user.as_str());
                res.append("/");
            },
            None => {},
        }
        res.append(self.repository.as_str());
        res
    }

    /// `user/repository:tag`, or `repository:tag` without a user.
    pub fn to_normalized_name(&self) -> (r: String)
        ensures
            r@ == spec_base_name(self@) + ":"@ + self.tag@,
    {
        let mut res = self.to_base_name();
        res.append(":");
        res.append(self.tag.as_str());
        res
    }

    /// Parses an image name, rejecting with `Config` exactly the names
    /// [`spec_parse_image_name`] rejects.
    pub fn from_str_name(image_name: &str) -> (r: Result<ImageName, ImgError>)
        ensures
            match r {
                Ok(n) => spec_parse_image_name(image_name@) == Some(n@),
                Err(e) => e == ImgError::Config && spec_parse_image_name(image_name@) is None,
            },
    {
        let ghost s = image_name@;
        let len = image_name.unicode_len();
        let mut contains_alpha = false;
        let mut count_colon: usize = 0;
        let mut count_slash: usize = 0;
        let mut first_colon: usize = len;
        let mut first_slash: usize = len;
        let mut i: usize = 0;
        while i < len
            invariant
                len == s.len(),
                s == image_name@,
                0 <= i <= len,
                forall|p: int| 0 <= p < i ==> allowed_char(#[trigger] s[p]),
                contains_alpha == exists|p: int| 0 <= p < i && is_alnum_char(#[trigger] s[p]),
                count_colon == count_char(s.take(i as int), ':'),
                count_slash == count_char(s.take(i as int), '/'),
                count_colon <= i,
                count_slash <= i,
                first_colon == len || (first_colon < i && s[first_colon as int] == ':'),
                forall|p: int| 0 <= p < i && p < first_colon ==> s[p] != ':',
                first_colon == len ==> forall|p: int| 0 <= p < i ==> s[p] != ':',
                first_slash == len || (first_slash < i && s[first_slash as int] == '/'),
                forall|p: int| 0 <= p < i && p < first_slash ==> s[p] != '/',
                first_slash == len ==> forall|p: int| 0 <= p < i ==> s[p] != '/',
            decreases len - i,
        {
            let c = image_name.get_char(i);
            let cu = c as u32;
            let alnum = (48 <= cu && cu <= 57) || (65 <= cu && cu <= 90) || (97 <= cu && cu
                <= 122);
            if alnum {
                contains_alpha = true;
            } else if c == '-' || c == '_' || c == '.' {
                // allowed punctuation
            } else if c == '/' {
                if first_slash == len {
                    first_slash = i;
                }
                count_slash = count_slash + 1;
            } else if c == ':' {
                if first_colon == len {
                    first_colon = i;
                }
                count_colon = count_colon + 1;
            } else {
                return Err(ImgError::Config);
            }
            proof {
                lemma_count_char_take_step(s, ':', i as int);
                lemma_count_char_take_step(s, '/', i as int);
            }
            i += 1;
        }
        proof {
            assert(s.take(len as int) =~= s);
        }
        if !contains_alpha {
            return Err(ImgError::Config);
        }
        // A letter or digit exists, so the name is not empty.
        let c0 = image_name.get_char(0);
        if c0 == ':' || c0 == '/' {
            return Err(ImgError::Config);
        }
        if count_colon > 1 || count_slash > 1 {
            return Err(ImgError::Config);
        }
        proof {
            lemma_find_char_unique(s, ':', first_colon as int);
            lemma_find_char_unique(s, '/', first_slash as int);
        }
        let base_end = if first_colon < len {
            first_colon
        } else {
            len
        };
        let ghost base = s.take(base_end as int);
        proof {
            if first_slash < base_end {
                lemma_find_char_unique(base, '/', first_slash as int);
            } else {
                lemma_find_char_unique(base, '/', base_end as int);
            }
        }
        let tag: String = if first_colon < len {
            if first_colon + 1 == len {
                // The tag part is empty.
                return Err(ImgError::Config);
            }
            image_name.substring_char(first_colon + 1, len).to_owned()
        } else {
            proof {
                reveal_strlit("latest");
            }
            "latest".to_owned()
        };
        proof {
            assert(tag@.len() > 0);
        }
        let name = if first_slash < base_end {
            let user = image_name.substring_char(0, first_slash).to_owned();
            let repo = image_name.substring_char(first_slash + 1, base_end).to_owned();
            ImageName { user: Some(user), repository: repo, tag }
        } else {
            let repo = image_name.substring_char(0, base_end).to_owned();
            ImageName { user: None, repository: repo, tag }
        };
        proof {
            assert(spec_parse_image_name(s) matches Some(m) && m =~= name@);
        }
        Ok(name)
    }
}

/// The base name: `user/repository` or the repository alone.
pub open spec fn spec_base_name(m: ImageNameModel) -> Seq<char> {
    match m.user {
        Some(u) => u + "/"@ + m.repository,
        None => m.repository,
    }
}

} // verus!
