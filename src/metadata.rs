//! Project metadata: fields read from manifests with a line-oriented
//! heuristic, the author identity from the version-control configuration,
//! and the license text rendered from them.
use vstd::prelude::*;

use crate::text::{
    is_white, lemma_next_index_at_most, lemma_next_index_is, strip_front,
    lemma_contains_after_strip, lemma_contains_in_subrange, lemma_starts_with_contains,
    after_first, after_first_of, chars_of, contains, contains_of, has_char, lemma_next_index_bounds,
    next_index, next_index_of, occurs_at, opt_str_view, opt_view, slice, starts_with, starts_with_of, string_of, strip_back,
    strip_back_of, strip_both, strip_both_of, trim, trim_of, Strip,
};

verus! {

/// The two manifest styles that field extraction understands.
#[derive(Clone, Copy, PartialEq, Eq, Structural, Debug)]
pub enum ManifestFormat {
    /// `key = "value"` lines, as in `Cargo.toml`.
    Toml,
    /// `"key": "value",` lines, as in `package.json`.
    Json,
}

pub open spec fn license_key() -> Seq<char> {
    "license"@
}

pub open spec fn repository_key() -> Seq<char> {
    "repository"@
}

pub open spec fn license_placeholder() -> Seq<char> {
    "<license>"@
}

pub open spec fn author_placeholder() -> Seq<char> {
    "<author>"@
}

/// The field name in double quotes, as a JSON key is written.
pub open spec fn quoted(field: Seq<char>) -> Seq<char> {
    seq!['"'] + field + seq!['"']
}

/// The value that a `key = "value"` line gives for `field`, if any: the
/// trimmed line starts with the field name and holds an `=`; the value is the
/// text after the first `=`, trimmed, stripped of quotes, trimmed again, and
/// not empty.
pub open spec fn toml_line(line: Seq<char>, field: Seq<char>) -> Option<Seq<char>> {
    let t = trim(line);
    if starts_with(t, field) && has_char(t, '=') {
        let v = trim(strip_both(trim(after_first(t, '=')), Strip::Quote));
        if v.len() > 0 {
            Some(v)
        } else {
            None
        }
    } else {
        None
    }
}

/// The value that a `"key": "value",` line gives for `field`, if any: the
/// trimmed line holds the quoted field name and a `:`; the value is the text
/// after the first `:`, trimmed, stripped of trailing commas and of quotes,
/// trimmed again, not empty and not an object.
pub open spec fn json_line(line: Seq<char>, field: Seq<char>) -> Option<Seq<char>> {
    let t = trim(line);
    if contains(t, quoted(field)) && has_char(t, ':') {
        let v = trim(strip_both(strip_back(trim(after_first(t, ':')), Strip::Comma), Strip::Quote));
        if v.len() > 0 && v[0] != '{' {
            Some(v)
        } else {
            None
        }
    } else {
        None
    }
}

pub open spec fn line_value(fmt: ManifestFormat, line: Seq<char>, field: Seq<char>) -> Option<Seq<char>> {
    match fmt {
        ManifestFormat::Toml => toml_line(line, field),
        ManifestFormat::Json => json_line(line, field),
    }
}

/// The value of `field` given by the first line, from the line that starts
/// at `i` on, that gives one.
pub open spec fn value_from(fmt: ManifestFormat, s: Seq<char>, field: Seq<char>, i: int) -> Option<Seq<char>>
    decreases s.len() - i,
{
    if 0 <= i <= s.len() {
        let e = next_index(s, '\n', i);
        match line_value(fmt, s.subrange(i, e), field) {
            Some(v) => Some(v),
            None => if i <= e < s.len() {
                value_from(fmt, s, field, e + 1)
            } else {
                None
            },
        }
    } else {
        None
    }
}

/// The value of `field` in manifest text `s`: that of its first line that gives one.
pub open spec fn field_value(fmt: ManifestFormat, s: Seq<char>, field: Seq<char>) -> Option<Seq<char>> {
    value_from(fmt, s, field, 0)
}

/// The value of `field` in a manifest that may be absent.
pub open spec fn from_manifest(fmt: ManifestFormat, m: Option<Seq<char>>, field: Seq<char>) -> Option<Seq<char>> {
    match m {
        Some(s) => field_value(fmt, s, field),
        None => None,
    }
}

/// The value of `field` from the TOML manifest, else from the JSON manifest.
pub open spec fn resolve_field(
    field: Seq<char>,
    cargo_toml: Option<Seq<char>>,
    package_json: Option<Seq<char>>,
) -> Option<Seq<char>> {
    match from_manifest(ManifestFormat::Toml, cargo_toml, field) {
        Some(v) => Some(v),
        None => from_manifest(ManifestFormat::Json, package_json, field),
    }
}

pub open spec fn license_of(cargo_toml: Option<Seq<char>>, package_json: Option<Seq<char>>) -> Seq<char> {
    match resolve_field(license_key(), cargo_toml, package_json) {
        Some(v) => v,
        None => license_placeholder(),
    }
}

pub open spec fn repository_of(cargo_toml: Option<Seq<char>>, package_json: Option<Seq<char>>) -> Option<Seq<char>> {
    resolve_field(repository_key(), cargo_toml, package_json)
}

/// The author name from the output of the name lookup (`None` when it failed):
/// the trimmed output, or the placeholder when it failed or was blank.
pub open spec fn author_name_of(name_output: Option<Seq<char>>) -> Seq<char> {
    match name_output {
        Some(s) => if trim(s).len() > 0 {
            trim(s)
        } else {
            author_placeholder()
        },
        None => author_placeholder(),
    }
}

/// The author email from the output of the email lookup (`None` when it failed).
pub open spec fn author_email_of(email_output: Option<Seq<char>>) -> Option<Seq<char>> {
    match email_output {
        Some(s) => if trim(s).len() > 0 {
            Some(trim(s))
        } else {
            None
        },
        None => None,
    }
}

fn line_value_of(fmt: ManifestFormat, line: &Vec<char>, field: &Vec<char>) -> (r: Option<Vec<char>>)
    ensures
        match r {
            Some(v) => line_value(fmt, line@, field@) == Some(v@),
            None => line_value(fmt, line@, field@).is_none(),
        },
{
    let t = trim_of(line);
    match fmt {
        ManifestFormat::Toml => {
            if !starts_with_of(&t, field) || next_index_of(&t, '=', 0) == t.len() {
                return None;
            }
            let a = after_first_of(&t, '=');
            let a = trim_of(&a);
            let q = strip_both_of(&a, Strip::Quote);
            let v = trim_of(&q);
            if v.len() > 0 {
                Some(v)
            } else {
                None
            }
        },
        ManifestFormat::Json => {
            let mut key: Vec<char> = Vec::new();
            key.push('"');
            let mut k: usize = 0;
            while k < field.len()
                invariant
                    k <= field@.len(),
                    key@ == seq!['"'] + field@.subrange(0, k as int),
                decreases field@.len() - k,
            {
                key.push(field[k]);
                k = k + 1;
                assert(key@ =~= seq!['"'] + field@.subrange(0, k as int));
            }
            key.push('"');
            assert(field@.subrange(0, field@.len() as int) =~= field@);
            assert(key@ =~= quoted(field@));
            if !contains_of(&t, &key) || next_index_of(&t, ':', 0) == t.len() {
                return None;
            }
            let a = after_first_of(&t, ':');
            let a = trim_of(&a);
            let c = strip_back_of(&a, Strip::Comma);
            let q = strip_both_of(&c, Strip::Quote);
            let v = trim_of(&q);
            if v.len() > 0 && v[0] != '{' {
                Some(v)
            } else {
                None
            }
        },
    }
}

/// The value of `field` in manifest text `content` of format `fmt`; `None`
/// when no line gives one. Never fails, whatever the text holds.
pub fn extract_field(fmt: ManifestFormat, content: &str, field: &str) -> (r: Option<String>)
    ensures
        opt_view(r) == field_value(fmt, content@, field@),
{
    let s = chars_of(content);
    let f = chars_of(field);
    let n = s.len();
    let mut i: usize = 0;
    loop
        invariant
            i <= n == s@.len(),
            s@ == content@,
            f@ == field@,
            field_value(fmt, s@, f@) == value_from(fmt, s@, f@, i as int),
        decreases n - i,
    {
        let e = next_index_of(&s, '\n', i);
        let line = slice(&s, i, e);
        match line_value_of(fmt, &line, &f) {
            Some(v) => {
                return Some(string_of(&v));
            },
            None => {},
        }
        if e == n {
            return None;
        }
        i = e + 1;
    }
}

/// The `license` field of a `Cargo.toml`-style manifest.
pub fn extract_license_from_toml(content: &str) -> (r: Option<String>)
    ensures
        opt_view(r) == field_value(ManifestFormat::Toml, content@, license_key()),
{
    extract_field(ManifestFormat::Toml, content, "license")
}

/// The `license` field of a `package.json`-style manifest.
pub fn extract_license_from_json(content: &str) -> (r: Option<String>)
    ensures
        opt_view(r) == field_value(ManifestFormat::Json, content@, license_key()),
{
    extract_field(ManifestFormat::Json, content, "license")
}

fn field_from_manifests(field: &str, cargo_toml: Option<&str>, package_json: Option<&str>) -> (r: Option<String>)
    ensures
        opt_view(r) == resolve_field(field@, opt_str_view(cargo_toml), opt_str_view(package_json)),
{
    if let Some(c) = cargo_toml {
        if let Some(v) = extract_field(ManifestFormat::Toml, c, field) {
            return Some(v);
        }
    }
    match package_json {
        Some(p) => extract_field(ManifestFormat::Json, p, field),
        None => None,
    }
}

/// The project's license: from `Cargo.toml` (its text, `None` when absent or
/// unreadable), else from `package.json`, else the placeholder `<license>`.
pub fn extract_license(cargo_toml: Option<&str>, package_json: Option<&str>) -> (r: String)
    ensures
        r@ == license_of(opt_str_view(cargo_toml), opt_str_view(package_json)),
{
    match field_from_manifests("license", cargo_toml, package_json) {
        Some(v) => v,
        None => String::from_str("<license>"),
    }
}

/// The project's repository: from `Cargo.toml`, else from `package.json`;
/// `None` when neither gives one.
pub fn extract_repository(cargo_toml: Option<&str>, package_json: Option<&str>) -> (r: Option<String>)
    ensures
        opt_view(r) == repository_of(opt_str_view(cargo_toml), opt_str_view(package_json)),
{
    field_from_manifests("repository", cargo_toml, package_json)
}

/// The author's name and email from the outputs of the two version-control
/// lookups, each `None` when its lookup failed.
pub fn resolve_author(name_output: Option<&str>, email_output: Option<&str>) -> (r: (String, Option<String>))
    ensures
        r.0@ == author_name_of(opt_str_view(name_output)),
        opt_view(r.1) == author_email_of(opt_str_view(email_output)),
{
    let name = match name_output {
        Some(s) => {
            let t = trim_of(&chars_of(s));
            if t.len() > 0 {
                string_of(&t)
            } else {
                String::from_str("<author>")
            }
        },
        None => String::from_str("<author>"),
    };
    let email = match email_output {
        Some(s) => {
            let t = trim_of(&chars_of(s));
            if t.len() > 0 {
                Some(string_of(&t))
            } else {
                None
            }
        },
        None => None,
    };
    (name, email)
}

/// Facts about a project, resolved once per run.
#[derive(Debug, Clone)]
pub struct ProjectMetadata {
    /// The year, four digits.
    pub current_year: String,
    /// The author's name, or the placeholder `<author>`.
    pub author_name: String,
    pub author_email: Option<String>,
    /// The license, or the placeholder `<license>`.
    pub license: String,
    pub repository: Option<String>,
}

pub open spec fn copyright_of(year: Seq<char>, author: Seq<char>) -> Seq<char> {
    "Copyright (c) "@ + year + " "@ + author
}

pub open spec fn author_with_email_of(author: Seq<char>, email: Option<Seq<char>>) -> Seq<char> {
    match email {
        Some(e) => author + " <"@ + e + ">"@,
        None => author,
    }
}

/// Relies on chrono's `Local::now` and its `%Y` format: the local year now.
#[verifier::external_body]
fn year_now() -> (r: String) {
    chrono::Local::now().format("%Y").to_string()
}

impl ProjectMetadata {
    /// The author name and the license are never empty.
    pub open spec fn is_populated(&self) -> bool {
        self.author_name@.len() > 0 && self.license@.len() > 0
    }

    /// The metadata of a project in `year`, from the outputs of the
    /// version-control name and email lookups (`None` where a lookup failed)
    /// and the texts of its `Cargo.toml` and `package.json` (`None` where a
    /// file is absent or unreadable).
    pub fn extract_at(
        current_year: String,
        name_output: Option<&str>,
        email_output: Option<&str>,
        cargo_toml: Option<&str>,
        package_json: Option<&str>,
    ) -> (r: ProjectMetadata)
        ensures
            r.current_year@ == current_year@,
            r.author_name@ == author_name_of(opt_str_view(name_output)),
            opt_view(r.author_email) == author_email_of(opt_str_view(email_output)),
            r.license@ == license_of(opt_str_view(cargo_toml), opt_str_view(package_json)),
            opt_view(r.repository) == repository_of(opt_str_view(cargo_toml), opt_str_view(package_json)),
            r.is_populated(),
    {
        let (author_name, author_email) = resolve_author(name_output, email_output);
        let license = extract_license(cargo_toml, package_json);
        let repository = extract_repository(cargo_toml, package_json);
        proof {
            lemma_license_not_empty(opt_str_view(cargo_toml), opt_str_view(package_json));
            reveal_strlit("<author>");
        }
        ProjectMetadata { current_year, author_name, author_email, license, repository }
    }

    /// As `extract_at`, in the current local year.
    pub fn extract(
        name_output: Option<&str>,
        email_output: Option<&str>,
        cargo_toml: Option<&str>,
        package_json: Option<&str>,
    ) -> (r: ProjectMetadata)
        ensures
            r.author_name@ == author_name_of(opt_str_view(name_output)),
            opt_view(r.author_email) == author_email_of(opt_str_view(email_output)),
            r.license@ == license_of(opt_str_view(cargo_toml), opt_str_view(package_json)),
            opt_view(r.repository) == repository_of(opt_str_view(cargo_toml), opt_str_view(package_json)),
            r.is_populated(),
    {
        ProjectMetadata::extract_at(year_now(), name_output, email_output, cargo_toml, package_json)
    }

    /// `Copyright (c) {year} {author}`.
    pub fn copyright_string(&self) -> (r: String)
        ensures
            r@ == copyright_of(self.current_year@, self.author_name@),
    {
        let mut s = String::from_str("Copyright (c) ");
        s.append(self.current_year.as_str());
        s.append(" ");
        s.append(self.author_name.as_str());
        s
    }

    /// `{author} <{email}>`, or the author alone when there is no email.
    pub fn author_with_email(&self) -> (r: String)
        ensures
            r@ == author_with_email_of(self.author_name@, opt_view(self.author_email)),
    {
        match &self.author_email {
            Some(e) => {
                let mut s = self.author_name.clone();
                s.append(" <");
                s.append(e.as_str());
                s.append(">");
                s
            },
            None => self.author_name.clone(),
        }
    }
}

pub open spec fn mit_heading() -> Seq<char> {
    "MIT License\n\n"@
}

pub open spec fn mit_terms() -> Seq<char> {
    "\n\nPermission is hereby granted, free of charge, to any person obtaining a copy
of this software and associated documentation files (the \"Software\"), to deal
in the Software without restriction, including without limitation the rights
to use, copy, modify, merge, publish, distribute, sublicense, and/or sell
copies of the Software, and to permit persons to whom the Software is
furnished to do so, subject to the following conditions:

The above copyright notice and this permission notice shall be included in all
copies or substantial portions of the Software.

THE SOFTWARE IS PROVIDED \"AS IS\", WITHOUT WARRANTY OF ANY KIND, EXPRESS OR
IMPLIED, INCLUDING BUT NOT LIMITED TO THE WARRANTIES OF MERCHANTABILITY,
FITNESS FOR A PARTICULAR PURPOSE AND NONINFRINGEMENT. IN NO EVENT SHALL THE
AUTHORS OR COPYRIGHT HOLDERS BE LIABLE FOR ANY CLAIM, DAMAGES OR OTHER
LIABILITY, WHETHER IN AN ACTION OF CONTRACT, TORT OR OTHERWISE, ARISING FROM,
OUT OF OR IN CONNECTION WITH THE SOFTWARE OR THE USE OR OTHER DEALINGS IN THE
SOFTWARE.
"@
}

/// The MIT license text, its one variable line the copyright line.
pub open spec fn mit_license_of(copyright: Seq<char>) -> Seq<char> {
    mit_heading() + copyright + mit_terms()
}

/// The MIT license text for `metadata`.
pub fn generate_mit_license(metadata: &ProjectMetadata) -> (r: String)
    ensures
        r@ == mit_license_of(copyright_of(metadata.current_year@, metadata.author_name@)),
{
    let mut s = String::from_str("MIT License\n\n");
    let c = metadata.copyright_string();
    s.append(c.as_str());
    s.append("\n\nPermission is hereby granted, free of charge, to any person obtaining a copy
of this software and associated documentation files (the \"Software\"), to deal
in the Software without restriction, including without limitation the rights
to use, copy, modify, merge, publish, distribute, sublicense, and/or sell
copies of the Software, and to permit persons to whom the Software is
furnished to do so, subject to the following conditions:

The above copyright notice and this permission notice shall be included in all
copies or substantial portions of the Software.

THE SOFTWARE IS PROVIDED \"AS IS\", WITHOUT WARRANTY OF ANY KIND, EXPRESS OR
IMPLIED, INCLUDING BUT NOT LIMITED TO THE WARRANTIES OF MERCHANTABILITY,
FITNESS FOR A PARTICULAR PURPOSE AND NONINFRINGEMENT. IN NO EVENT SHALL THE
AUTHORS OR COPYRIGHT HOLDERS BE LIABLE FOR ANY CLAIM, DAMAGES OR OTHER
LIABILITY, WHETHER IN AN ACTION OF CONTRACT, TORT OR OTHERWISE, ARISING FROM,
OUT OF OR IN CONNECTION WITH THE SOFTWARE OR THE USE OR OTHER DEALINGS IN THE
SOFTWARE.
");
    s
}

/// A value that extraction finds is never empty.
pub proof fn lemma_value_not_empty(fmt: ManifestFormat, s: Seq<char>, field: Seq<char>, i: int)
    ensures
        value_from(fmt, s, field, i) matches Some(v) ==> v.len() > 0,
    decreases s.len() - i,
{
    if 0 <= i <= s.len() {
        let e = next_index(s, '\n', i);
        if line_value(fmt, s.subrange(i, e), field).is_none() && i <= e < s.len() {
            lemma_value_not_empty(fmt, s, field, e + 1);
        }
    }
}

/// A resolved license is never empty: a value found in a manifest is not,
/// and the placeholder is not.
pub proof fn lemma_license_not_empty(cargo_toml: Option<Seq<char>>, package_json: Option<Seq<char>>)
    ensures
        license_of(cargo_toml, package_json).len() > 0,
{
    reveal_strlit("<license>");
    if let Some(c) = cargo_toml {
        lemma_value_not_empty(ManifestFormat::Toml, c, license_key(), 0);
    }
    if let Some(p) = package_json {
        lemma_value_not_empty(ManifestFormat::Json, p, license_key(), 0);
    }
}

/// A line without the field name gives no value for it.
proof fn lemma_line_without_field(fmt: ManifestFormat, line: Seq<char>, field: Seq<char>)
    requires
        !contains(line, field),
    ensures
        line_value(fmt, line, field) is None,
{
    let t = trim(line);
    lemma_contains_after_strip(line, Strip::White, field);
    if starts_with(t, field) {
        lemma_starts_with_contains(t, field);
    }
    if contains(t, quoted(field)) {
        let i = choose|i: int| occurs_at(t, quoted(field), i);
        let n = field.len() as int;
        assert(t.subrange(i + 1, i + 1 + n) =~= quoted(field).subrange(1, 1 + n));
        assert(quoted(field).subrange(1, 1 + n) =~= field);
        assert(occurs_at(t, field, i + 1));
    }
}

proof fn lemma_no_field_from(fmt: ManifestFormat, s: Seq<char>, field: Seq<char>, i: int)
    requires
        !contains(s, field),
    ensures
        value_from(fmt, s, field, i) is None,
    decreases s.len() - i,
{
    if 0 <= i <= s.len() {
        let e = next_index(s, '\n', i);
        lemma_next_index_bounds(s, '\n', i);
        if contains(s.subrange(i, e), field) {
            lemma_contains_in_subrange(s, i, e, field);
        }
        lemma_line_without_field(fmt, s.subrange(i, e), field);
        if i <= e < s.len() {
            lemma_no_field_from(fmt, s, field, e + 1);
        }
    }
}

/// Where neither manifest mentions `license`, or a manifest is absent, the
/// license falls back to the placeholder `<license>`.
pub proof fn lemma_license_placeholder(cargo_toml: Option<Seq<char>>, package_json: Option<Seq<char>>)
    requires
        cargo_toml matches Some(c) ==> !contains(c, license_key()),
        package_json matches Some(p) ==> !contains(p, license_key()),
    ensures
        license_of(cargo_toml, package_json) == license_placeholder(),
{
    if let Some(c) = cargo_toml {
        lemma_no_field_from(ManifestFormat::Toml, c, license_key(), 0);
    }
    if let Some(p) = package_json {
        lemma_no_field_from(ManifestFormat::Json, p, license_key(), 0);
    }
}

/// The line `license = "x"`.
pub open spec fn toml_license_line(x: Seq<char>) -> Seq<char> {
    license_key() + seq![' ', '=', ' ', '"'] + x + seq!['"']
}

/// A value neither empty nor padded with white space or quotes, on one line.
pub open spec fn plain_value(x: Seq<char>) -> bool {
    &&& x.len() > 0
    &&& !is_white(x[0]) && !is_white(x.last())
    &&& x[0] != '"' && x.last() != '"'
    &&& forall|j: int| 0 <= j < x.len() ==> x[j] != '\n'
}

proof fn lemma_toml_license_line_value(x: Seq<char>)
    requires
        plain_value(x),
    ensures
        toml_line(toml_license_line(x), license_key()) == Some(x),
{
    reveal_strlit("license");
    let l = toml_license_line(x);
    let q = seq!['"'] + x + seq!['"'];
    let a = seq![' '] + q;
    // the line is already trimmed
    assert(!is_white(l[0]));
    assert(l.last() == '"');
    assert(strip_front(l, Strip::White) == l);
    assert(strip_back(l, Strip::White) == l);
    assert(l.subrange(0, 7) =~= license_key());
    // its first `=`
    lemma_next_index_is(l, '=', 0, 8);
    assert(after_first(l, '=') =~= a);
    // white space, then quotes, come off
    assert(a.drop_first() =~= q);
    assert(strip_front(q, Strip::White) == q);
    assert(strip_front(a, Strip::White) == q);
    assert(strip_back(q, Strip::White) == q);
    assert(q.drop_first() =~= x + seq!['"']);
    assert((x + seq!['"'])[0] == x[0]);
    assert(strip_front(x + seq!['"'], Strip::Quote) == x + seq!['"']);
    assert(strip_front(q, Strip::Quote) == x + seq!['"']);
    assert((x + seq!['"']).drop_last() =~= x);
    assert(strip_back(x, Strip::Quote) == x);
    assert(strip_back(x + seq!['"'], Strip::Quote) == x);
    assert(strip_front(x, Strip::White) == x);
    assert(strip_back(x, Strip::White) == x);
}

proof fn lemma_skip_lines_without_field(fmt: ManifestFormat, s: Seq<char>, pre_len: int, field: Seq<char>, i: int)
    requires
        0 <= i <= pre_len <= s.len(),
        pre_len == 0 || s[pre_len - 1] == '\n',
        !contains(s.subrange(0, pre_len), field),
    ensures
        value_from(fmt, s, field, i) == value_from(fmt, s, field, pre_len),
    decreases pre_len - i,
{
    if i < pre_len {
        let e = next_index(s, '\n', i);
        lemma_next_index_bounds(s, '\n', i);
        lemma_next_index_at_most(s, '\n', i, pre_len - 1);
        assert(s.subrange(i, e) =~= s.subrange(0, pre_len).subrange(i, e));
        if contains(s.subrange(i, e), field) {
            lemma_contains_in_subrange(s.subrange(0, pre_len), i, e, field);
        }
        lemma_line_without_field(fmt, s.subrange(i, e), field);
        lemma_skip_lines_without_field(fmt, s, pre_len, field, e + 1);
    }
}

/// In a TOML manifest whose earlier lines do not mention `license`, a line
/// `license = "x"` gives exactly `x`, for `x` neither empty nor padded with
/// white space or quotes.
pub proof fn lemma_toml_license_found(pre: Seq<char>, x: Seq<char>, post: Seq<char>)
    requires
        !contains(pre, license_key()),
        pre.len() == 0 || pre.last() == '\n',
        post.len() == 0 || post[0] == '\n',
        plain_value(x),
    ensures
        field_value(ManifestFormat::Toml, pre + toml_license_line(x) + post, license_key()) == Some(x),
{
    reveal_strlit("license");
    let l = toml_license_line(x);
    let s = pre + l + post;
    let m = pre.len() as int;
    let k = m + l.len();
    assert(s.subrange(0, m) =~= pre);
    lemma_skip_lines_without_field(ManifestFormat::Toml, s, m, license_key(), 0);
    assert forall|j: int| m <= j < k implies s[j] != '\n' by {
        assert(s[j] == l[j - m]);
        if j - m >= 11 && j - m < 11 + x.len() {
            assert(l[j - m] == x[j - m - 11]);
        }
    }
    assert(k < s.len() ==> s[k] == post[0]);
    lemma_next_index_is(s, '\n', m, k);
    assert(s.subrange(m, k) =~= l);
    lemma_toml_license_line_value(x);
}

} // verus!
