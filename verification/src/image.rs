use crate::paths::{after_last, before_last, find_last, has_sep, lemma_no_sep, lemma_split_at_last};
use vstd::prelude::*;

verus! {

/// The mathematical form of a container image reference.
#[verifier::ext_equal]
pub struct ImageView {
    pub registry: Option<Seq<char>>,
    pub user: Option<Seq<char>>,
    pub repository: Seq<char>,
    pub tag: Option<Seq<char>>,
}

/// The tag of an image reference: the text after the last `:`, where the
/// last path segment has one.
pub open spec fn image_tag(s: Seq<char>) -> Option<Seq<char>> {
    if has_sep(after_last(s, '/'), ':') {
        Option::Some(after_last(s, ':'))
    } else {
        Option::None
    }
}

/// An image reference without its tag.
pub open spec fn image_path(s: Seq<char>) -> Seq<char> {
    if has_sep(after_last(s, '/'), ':') {
        before_last(s, ':')
    } else {
        s
    }
}

/// The repository of an image reference: the last segment of its path.
pub open spec fn image_repo(s: Seq<char>) -> Seq<char> {
    after_last(image_path(s), '/')
}

/// The user of an image reference: the segment before the repository,
/// where the path has more than one segment.
pub open spec fn image_user(s: Seq<char>) -> Option<Seq<char>> {
    if has_sep(image_path(s), '/') {
        Option::Some(after_last(before_last(image_path(s), '/'), '/'))
    } else {
        Option::None
    }
}

/// The registry of an image reference: everything before the user, where
/// the path has more than two segments.
pub open spec fn image_registry(s: Seq<char>) -> Option<Seq<char>> {
    if has_sep(image_path(s), '/') && has_sep(before_last(image_path(s), '/'), '/') {
        Option::Some(before_last(before_last(image_path(s), '/'), '/'))
    } else {
        Option::None
    }
}

/// A reference is accepted when none of its parts is empty.
pub open spec fn valid_image(s: Seq<char>) -> bool {
    &&& image_repo(s).len() > 0
    &&& (image_user(s) is Some ==> image_user(s)->0.len() > 0)
    &&& (image_registry(s) is Some ==> image_registry(s)->0.len() > 0)
    &&& (image_tag(s) is Some ==> image_tag(s)->0.len() > 0)
}

/// The parts of the reference `s`.
pub open spec fn image_view_of(s: Seq<char>) -> ImageView {
    ImageView {
        registry: image_registry(s),
        user: image_user(s),
        repository: image_repo(s),
        tag: image_tag(s),
    }
}

/// The fully qualified text of an image: registry, user and tag fall back
/// to the well-known defaults where the reference left them out.
pub open spec fn image_text(v: ImageView) -> Seq<char> {
    (match v.registry {
        Option::Some(r) => r,
        Option::None => "docker.io"@,
    }) + "/"@ + (match v.user {
        Option::Some(u) => u,
        Option::None => "library"@,
    }) + "/"@ + v.repository + ":"@ + (match v.tag {
        Option::Some(t) => t,
        Option::None => "latest"@,
    })
}

/// A container image reference: an optional registry, an optional user, a
/// repository and an optional tag.
#[derive(Debug, PartialEq, Eq)]
pub struct Image {
    registry: Option<String>,
    user: Option<String>,
    repository: String,
    tag: Option<String>,
}

impl View for Image {
    type V = ImageView;

    closed spec fn view(&self) -> ImageView {
        ImageView {
            registry: self.registry.deep_view(),
            user: self.user.deep_view(),
            repository: self.repository@,
            tag: self.tag.deep_view(),
        }
    }
}

impl Image {
    /// Parses an image reference; rejected when one of its parts is empty.
    pub fn from_str(s: &str) -> (r: Option<Image>)
        ensures
            r is Some <==> valid_image(s@),
            r is Some ==> r->0@ == image_view_of(s@),
    {
        let len = s.unicode_len();
        let last_slash = find_last(s, '/');
        let last_colon = find_last(s, ':');
        let tag_at: Option<usize> = match (last_colon, last_slash) {
            (Some(j), Some(i)) => if j > i {
                Some(j)
            } else {
                None
            },
            (Some(j), None) => Some(j),
            (None, _) => None,
        };
        proof {
            match last_slash {
                Option::Some(i) => lemma_split_at_last(s@, '/', i as int),
                Option::None => lemma_no_sep(s@, '/'),
            }
            match tag_at {
                Option::Some(j) => {
                    lemma_split_at_last(s@, ':', j as int);
                    let tail = after_last(s@, '/');
                    match last_slash {
                        Option::Some(i) => {
                            assert(tail[j - i - 1] == ':');
                            crate::paths::lemma_has_sep_witness(tail, ':', j - i - 1);
                        },
                        Option::None => {
                            assert(tail[j as int] == ':');
                            crate::paths::lemma_has_sep_witness(tail, ':', j as int);
                        },
                    }
                },
                Option::None => {
                    let tail = after_last(s@, '/');
                    assert(forall|k: int| 0 <= k < tail.len() ==> tail[k] != ':');
                    lemma_no_sep(tail, ':');
                },
            }
        }
        let (path_str, tag): (&str, Option<String>) = match tag_at {
            Some(j) => {
                let t = s.substring_char(j + 1, len).to_owned();
                if t.as_str().is_empty() {
                    return None;
                }
                (s.substring_char(0, j), Some(t))
            },
            None => (s, None),
        };
        proof {
            assert(path_str@ == image_path(s@));
        }
        let path_len = path_str.unicode_len();
        match find_last(path_str, '/') {
            Some(i2) => {
                proof {
                    lemma_split_at_last(path_str@, '/', i2 as int);
                }
                let repository = path_str.substring_char(i2 + 1, path_len).to_owned();
                if repository.as_str().is_empty() {
                    return None;
                }
                let prefix = path_str.substring_char(0, i2);
                let prefix_len = prefix.unicode_len();
                match find_last(prefix, '/') {
                    Some(i3) => {
                        proof {
                            lemma_split_at_last(prefix@, '/', i3 as int);
                        }
                        let user = prefix.substring_char(i3 + 1, prefix_len).to_owned();
                        if user.as_str().is_empty() {
                            return None;
                        }
                        let registry = prefix.substring_char(0, i3).to_owned();
                        if registry.as_str().is_empty() {
                            return None;
                        }
                        Some(
                            Image {
                                registry: Some(registry),
                                user: Some(user),
                                repository,
                                tag,
                            },
                        )
                    },
                    None => {
                        proof {
                            lemma_no_sep(prefix@, '/');
                        }
                        if prefix.is_empty() {
                            return None;
                        }
                        Some(
                            Image {
                                registry: None,
                                user: Some(prefix.to_owned()),
                                repository,
                                tag,
                            },
                        )
                    },
                }
            },
            None => {
                proof {
                    lemma_no_sep(path_str@, '/');
                }
                if path_str.is_empty() {
                    return None;
                }
                Some(Image { registry: None, user: None, repository: path_str.to_owned(), tag })
            },
        }
    }

    /// An exact copy of the reference.
    pub fn duplicate(&self) -> (r: Image)
        ensures
            r@ == self@,
    {
        Image {
            registry: match &self.registry {
                Some(s) => Some(s.clone()),
                None => None,
            },
            user: match &self.user {
                Some(s) => Some(s.clone()),
                None => None,
            },
            repository: self.repository.clone(),
            tag: match &self.tag {
                Some(s) => Some(s.clone()),
                None => None,
            },
        }
    }

    /// The fully qualified reference, with the well-known defaults filled
    /// in.
    pub fn to_string(&self) -> (r: String)
        ensures
            r@ == image_text(self@),
    {
        let mut r = match &self.registry {
            Some(reg) => reg.clone(),
            None => String::from_str("docker.io"),
        };
        r.append("/");
        match &self.user {
            Some(u) => r.append(u.as_str()),
            None => r.append("library"),
        };
        r.append("/");
        r.append(self.repository.as_str());
        r.append(":");
        match &self.tag {
            Some(t) => r.append(t.as_str()),
            None => r.append("latest"),
        };
        proof {
            assert(r@ =~= image_text(self@));
        }
        r
    }
}

} // verus!
