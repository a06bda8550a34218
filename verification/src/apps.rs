//! Android apps, read from the launchers Waydroid generates.

use vstd::prelude::*;
use vstd::std_specs::cmp::PartialEqSpecImpl;

use crate::text::{
    chars_of, find, find_in, line_ranges, lines, range_eq, range_texts, ranges_within,
    strings_text, substring, trim, trim_range,
};

verus! {

/// One launcher: the name the menu shows, the Android package, and the icon file.
#[derive(Clone, Debug)]
pub struct AppEntry {
    pub name: String,
    pub package: String,
    pub icon: String,
}

/// The text of a launcher's fields.
pub struct AppView {
    pub name: Seq<char>,
    pub package: Seq<char>,
    pub icon: Seq<char>,
}

impl View for AppEntry {
    type V = AppView;

    open spec fn view(&self) -> AppView {
        AppView { name: self.name@, package: self.package@, icon: self.icon@ }
    }
}

impl PartialEq for AppEntry {
    fn eq(&self, other: &Self) -> (r: bool) {
        self.name == other.name && self.package == other.package && self.icon == other.icon
    }
}

impl PartialEqSpecImpl for AppEntry {
    open spec fn obeys_eq_spec() -> bool {
        true
    }

    open spec fn eq_spec(&self, other: &Self) -> bool {
        self.name@ == other.name@ && self.package@ == other.package@ && self.icon@ == other.icon@
    }
}

impl Eq for AppEntry {}

/// A key/value pair, as text.
pub type Field = (Seq<char>, Seq<char>);

/// The key/value pairs of the `[Desktop Entry]` group among `ls`, in order;
/// `in_entry` says whether the lines before `ls` left us inside that group.
/// A trimmed line that starts with `[` opens a group; a line with `=` inside
/// the group is a pair, key and value trimmed; every other line is skipped.
pub open spec fn entry_fields(ls: Seq<Seq<char>>, in_entry: bool) -> Seq<Field>
    decreases ls.len(),
{
    if ls.len() == 0 {
        Seq::empty()
    } else {
        let line = trim(ls[0]);
        if line.len() > 0 && line[0] == '[' {
            entry_fields(ls.drop_first(), line == "[Desktop Entry]"@)
        } else if in_entry {
            match find(line, '=') {
                Some(i) => seq![(trim(line.take(i)), trim(line.skip(i + 1)))] + entry_fields(
                    ls.drop_first(),
                    in_entry,
                ),
                None => entry_fields(ls.drop_first(), in_entry),
            }
        } else {
            entry_fields(ls.drop_first(), in_entry)
        }
    }
}

/// The pairs of the `[Desktop Entry]` group of a launcher file (not its actions).
pub open spec fn desktop_fields(text: Seq<char>) -> Seq<Field> {
    entry_fields(lines(text), false)
}

/// The value a key ends up with: that of its last pair, as a map that takes
/// the pairs in order keeps it.
pub open spec fn last_value(fields: Seq<Field>, key: Seq<char>) -> Option<Seq<char>>
    decreases fields.len(),
{
    if fields.len() == 0 {
        None
    } else if fields.last().0 == key {
        Some(fields.last().1)
    } else {
        last_value(fields.drop_last(), key)
    }
}

/// The text of owned pairs.
pub open spec fn fields_text(pairs: Seq<(String, String)>) -> Seq<Field> {
    pairs.map_values(|p: (String, String)| (p.0@, p.1@))
}

/// The key/value pairs of the `[Desktop Entry]` group only (not the actions),
/// in the order they appear. They stand for a map in which a later pair
/// replaces an earlier one with the same key; `field_value` reads them so.
pub fn desktop_entry(text: &str) -> (fields: Vec<(String, String)>)
    ensures
        fields_text(fields@) == desktop_fields(text@),
{
    let v = chars_of(text);
    let ranges = line_ranges(&v);
    let ghost ls = lines(v@);
    let mut fields: Vec<(String, String)> = Vec::new();
    let mut in_entry = false;
    let mut k: usize = 0;
    assert(ls.skip(0) =~= ls);
    while k < ranges.len()
        invariant
            v@ == text@,
            ranges_within(v@, ranges@),
            range_texts(v@, ranges@) == ls,
            ls == lines(text@),
            k <= ranges.len(),
            fields_text(fields@) + entry_fields(ls.skip(k as int), in_entry) == desktop_fields(
                text@,
            ),
        decreases ranges.len() - k,
    {
        let (a, b) = ranges[k];
        let ghost raw = v@.subrange(a as int, b as int);
        assert(ls[k as int] == raw);
        assert(ls.skip(k as int).drop_first() =~= ls.skip(k + 1));
        assert(ls.skip(k as int)[0] == raw);
        let ghost old_fields = fields_text(fields@);
        let (ta, tb) = trim_range(&v, a, b);
        let ghost line = v@.subrange(ta as int, tb as int);
        if ta < tb && v[ta] == '[' {
            in_entry = range_eq(&v, ta, tb, "[Desktop Entry]");
        } else if in_entry {
            if let Some(e) = find_in(&v, '=', ta, tb) {
                assert(line.take(e - ta) =~= v@.subrange(ta as int, e as int));
                assert(line.skip(e - ta + 1) =~= v@.subrange(e + 1, tb as int));
                let (ka, kb) = trim_range(&v, ta, e);
                let (va, vb) = trim_range(&v, e + 1, tb);
                let key = substring(text, ka, kb);
                let value = substring(text, va, vb);
                fields.push((key, value));
                assert(fields_text(fields@) =~= old_fields + seq![
                    (trim(line.take(e - ta)), trim(line.skip(e - ta + 1))),
                ]);
            }
        }
        k = k + 1;
    }
    assert(ls.skip(ranges.len() as int) =~= Seq::<Seq<char>>::empty());
    assert(fields_text(fields@) =~= desktop_fields(text@));
    fields
}

/// The value of `key` among `fields`: that of the last pair with that key.
pub fn field_value<'a>(fields: &'a Vec<(String, String)>, key: &str) -> (r: Option<&'a String>)
    ensures
        match r {
            Some(s) => last_value(fields_text(fields@), key@) == Some(s@),
            None => last_value(fields_text(fields@), key@) is None,
        },
{
    let ghost all = fields_text(fields@);
    let mut i = fields.len();
    let kc = chars_of(key);
    assert(all.take(i as int) =~= all);
    while i > 0
        invariant
            i <= fields.len(),
            all == fields_text(fields@),
            kc@ == key@,
            last_value(all.take(i as int), key@) == last_value(all, key@),
        decreases i,
    {
        let ghost prefix = all.take(i as int);
        assert(prefix.drop_last() =~= all.take(i - 1));
        let name = &fields[i - 1].0;
        let nc = chars_of(name.as_str());
        if range_eq(&nc, 0, nc.len(), key) {
            assert(nc@.subrange(0, nc@.len() as int) =~= nc@);
            return Some(&fields[i - 1].1);
        }
        assert(nc@.subrange(0, nc@.len() as int) =~= nc@);
        i = i - 1;
    }
    None
}

/// The package a launcher file is for: its name between `waydroid.` and
/// `.desktop`, when it has both.
pub open spec fn package_of(file: Seq<char>) -> Option<Seq<char>> {
    if file.len() >= 17 && file.take(9) == "waydroid."@ && file.skip(file.len() - 8)
        == ".desktop"@ {
        Some(file.subrange(9, file.len() - 8))
    } else {
        None
    }
}

/// Whether a value is `true`, ignoring ASCII case.
pub open spec fn is_true_ignoring_case(v: Seq<char>) -> bool {
    &&& v.len() == 4
    &&& (v[0] == 't' || v[0] == 'T')
    &&& (v[1] == 'r' || v[1] == 'R')
    &&& (v[2] == 'u' || v[2] == 'U')
    &&& (v[3] == 'e' || v[3] == 'E')
}

/// The app a launcher file stands for, given its file name and text: none
/// when the name is not a Waydroid launcher's, or when the launcher is hidden
/// (`NoDisplay=true`). The name defaults to the package, the icon to nothing.
pub open spec fn launcher_app(file: Seq<char>, text: Seq<char>) -> Option<AppView> {
    match package_of(file) {
        None => None,
        Some(package) => {
            let fields = desktop_fields(text);
            if last_value(fields, "NoDisplay"@) matches Some(v) && is_true_ignoring_case(v) {
                None
            } else {
                Some(
                    AppView {
                        name: match last_value(fields, "Name"@) {
                            Some(n) => n,
                            None => package,
                        },
                        package,
                        icon: match last_value(fields, "Icon"@) {
                            Some(i) => i,
                            None => Seq::empty(),
                        },
                    },
                )
            }
        },
    }
}

/// Whether a value is `true`, ignoring ASCII case.
fn true_ignoring_case(v: &String) -> (b: bool)
    ensures
        b == is_true_ignoring_case(v@),
{
    let c = chars_of(v.as_str());
    c.len() == 4 && (c[0] == 't' || c[0] == 'T') && (c[1] == 'r' || c[1] == 'R') && (c[2] == 'u'
        || c[2] == 'U') && (c[3] == 'e' || c[3] == 'E')
}

/// The package of a launcher file, from its name alone.
pub fn launcher_package(file_name: &str) -> (p: Option<String>)
    ensures
        match p {
            Some(s) => package_of(file_name@) == Some(s@),
            None => package_of(file_name@) is None,
        },
{
    let f = chars_of(file_name);
    let n = f.len();
    if n < 17 || !range_eq(&f, 0, 9, "waydroid.") || !range_eq(&f, n - 8, n, ".desktop") {
        assert(f@.subrange(0, 9) =~= f@.take(9));
        assert(f@.subrange(n - 8, n as int) =~= f@.skip(n - 8));
        return None;
    }
    assert(f@.subrange(0, 9) =~= f@.take(9));
    assert(f@.subrange(n - 8, n as int) =~= f@.skip(n - 8));
    Some(substring(file_name, 9, n - 8))
}

/// The app that the launcher file `file_name`, holding `text`, stands for.
pub fn launcher_entry(file_name: &str, text: &str) -> (app: Option<AppEntry>)
    ensures
        match app {
            Some(a) => launcher_app(file_name@, text@) == Some(a@),
            None => launcher_app(file_name@, text@) is None,
        },
{
    let package = match launcher_package(file_name) {
        Some(p) => p,
        None => return None,
    };
    let fields = desktop_entry(text);
    if let Some(v) = field_value(&fields, "NoDisplay") {
        if true_ignoring_case(v) {
            return None;
        }
    }
    let name = match field_value(&fields, "Name") {
        Some(n) => n.clone(),
        None => package.clone(),
    };
    let icon = match field_value(&fields, "Icon") {
        Some(i) => i.clone(),
        None => String::new(),
    };
    let app = AppEntry { name, package, icon };
    assert(launcher_app(file_name@, text@) == Some(app@));
    Some(app)
}

/// What `str::to_lowercase` gives: the Unicode lower case of the text, which
/// can depend on a character's context (a final sigma, for one).
pub uninterp spec fn lowercase(s: Seq<char>) -> Seq<char>;

/// The Unicode lower case of `s`, by `str::to_lowercase`.
#[verifier::external_body]
fn to_lowercase(s: &str) -> (r: String)
    ensures
        r@ == lowercase(s@),
{
    s.to_lowercase()
}

/// The order of `String`s: character by character, by code point, a prefix
/// before anything longer. (UTF-8 keeps code point order, so this is the
/// byte order `Ord for String` uses.)
pub open spec fn chars_le(a: Seq<char>, b: Seq<char>) -> bool
    decreases a.len(),
{
    if a.len() == 0 {
        true
    } else if b.len() == 0 {
        false
    } else if a[0] != b[0] {
        (a[0] as int) < (b[0] as int)
    } else {
        chars_le(a.drop_first(), b.drop_first())
    }
}

/// Every text is in order with itself.
pub proof fn lemma_chars_le_reflexive(a: Seq<char>)
    ensures
        chars_le(a, a),
    decreases a.len(),
{
    if a.len() > 0 {
        lemma_chars_le_reflexive(a.drop_first());
    }
}

/// Any two texts are in order one way or the other.
pub proof fn lemma_chars_le_total(a: Seq<char>, b: Seq<char>)
    ensures
        chars_le(a, b) || chars_le(b, a),
    decreases a.len(),
{
    if a.len() > 0 && b.len() > 0 {
        if a[0] == b[0] {
            lemma_chars_le_total(a.drop_first(), b.drop_first());
        } else {
            assert((a[0] as int) != (b[0] as int));
        }
    }
}

/// The order is transitive.
pub proof fn lemma_chars_le_transitive(a: Seq<char>, b: Seq<char>, c: Seq<char>)
    requires
        chars_le(a, b),
        chars_le(b, c),
    ensures
        chars_le(a, c),
    decreases a.len(),
{
    if a.len() > 0 && b.len() > 0 && c.len() > 0 && a[0] == b[0] && b[0] == c[0] {
        lemma_chars_le_transitive(a.drop_first(), b.drop_first(), c.drop_first());
    }
}

/// Whether `a` comes before `b`, or is equal to it, in `String` order.
fn text_le(a: &String, b: &String) -> (r: bool)
    ensures
        r == chars_le(a@, b@),
{
    let x = chars_of(a.as_str());
    let y = chars_of(b.as_str());
    let mut i: usize = 0;
    assert(x@.skip(0) =~= x@);
    assert(y@.skip(0) =~= y@);
    while i < x.len() && i < y.len() && x[i] == y[i]
        invariant
            i <= x.len(),
            i <= y.len(),
            x@ == a@,
            y@ == b@,
            chars_le(x@.skip(i as int), y@.skip(i as int)) == chars_le(a@, b@),
        decreases x.len() - i,
    {
        assert(x@.skip(i as int).drop_first() =~= x@.skip(i + 1));
        assert(y@.skip(i as int).drop_first() =~= y@.skip(i + 1));
        i = i + 1;
    }
    if i == x.len() {
        true
    } else if i == y.len() {
        false
    } else {
        x[i] < y[i]
    }
}

/// The text of each app.
pub open spec fn apps_view(apps: Seq<AppEntry>) -> Seq<AppView> {
    apps.map_values(|a: AppEntry| a@)
}

/// What apps are sorted by: the lower case of their name.
pub open spec fn sort_key(a: AppView) -> Seq<char> {
    lowercase(a.name)
}

/// `output` is `input` stably sorted by the keys `keys` (one per input app),
/// with `output[i]` taken from `input[order[i]]`: every app once, keys in
/// order, and apps with equal keys in the order they came in.
pub open spec fn stably_sorted_by(
    input: Seq<AppView>,
    keys: Seq<Seq<char>>,
    output: Seq<AppView>,
    order: Seq<int>,
) -> bool {
    &&& keys.len() == input.len()
    &&& order.len() == input.len()
    &&& output.len() == input.len()
    &&& forall|i: int| 0 <= i < order.len() ==> 0 <= #[trigger] order[i] < input.len()
    &&& forall|i: int, j: int| 0 <= i < j < order.len() ==> order[i] != order[j]
    &&& forall|i: int| 0 <= i < output.len() ==> #[trigger] output[i] == input[order[i]]
    &&& forall|i: int, j: int|
        0 <= i < j < order.len() ==> chars_le(keys[order[i]], keys[order[j]])
    &&& forall|i: int, j: int|
        0 <= i < j < order.len() && keys[order[i]] == keys[order[j]] ==> order[i] < order[j]
}

/// The sort key of each app.
pub open spec fn sort_keys(apps: Seq<AppView>) -> Seq<Seq<char>> {
    apps.map_values(|a: AppView| sort_key(a))
}

/// `output` is `input` stably sorted by `sort_key`.
pub open spec fn stably_sorted(input: Seq<AppView>, output: Seq<AppView>, order: Seq<int>) -> bool {
    stably_sorted_by(input, sort_keys(input), output, order)
}

/// The apps stably sorted by the given keys, `keys[i]` being that of `apps[i]`.
pub fn sort_by_keys(apps: Vec<AppEntry>, keys: Vec<String>) -> (sorted: Vec<AppEntry>)
    requires
        keys.len() == apps.len(),
    ensures
        exists|order: Seq<int>|
            stably_sorted_by(apps_view(apps@), strings_text(keys@), apps_view(sorted@), order),
{
    let ghost input = apps_view(apps@);
    let ghost in_keys = strings_text(keys@);
    let n = apps.len();
    let mut rest = apps;
    let mut rest_keys = keys;
    let mut out: Vec<AppEntry> = Vec::new();
    let mut out_keys: Vec<String> = Vec::new();
    let ghost mut order: Seq<int> = Seq::empty();
    let mut i: usize = 0;
    assert(apps_view(rest@) =~= input.skip(0));
    assert(strings_text(rest_keys@) =~= in_keys.skip(0));
    while i < n
        invariant
            n == input.len(),
            n == in_keys.len(),
            i <= n,
            apps_view(rest@) == input.skip(i as int),
            strings_text(rest_keys@) == in_keys.skip(i as int),
            out_keys@.len() == out@.len(),
            out@.len() == i,
            order.len() == i,
            forall|k: int| 0 <= k < order.len() ==> 0 <= #[trigger] order[k] < i,
            forall|k: int, l: int| 0 <= k < l < order.len() ==> order[k] != order[l],
            forall|k: int| 0 <= k < out@.len() ==> #[trigger] out@[k]@ == input[order[k]],
            forall|k: int| 0 <= k < out_keys@.len() ==> #[trigger] out_keys@[k]@ == in_keys[order[k]],
            forall|k: int, l: int|
                0 <= k < l < out_keys@.len() ==> chars_le(out_keys@[k]@, out_keys@[l]@),
            forall|k: int, l: int|
                0 <= k < l < out_keys@.len() && out_keys@[k]@ == out_keys@[l]@ ==> order[k] < order[l],
        decreases n - i,
    {
        let ghost before = rest@;
        let ghost before_keys = rest_keys@;
        assert(apps_view(before).len() == before.len());
        assert(strings_text(before_keys).len() == before_keys.len());
        assert(apps_view(before)[0] == input[i as int]);
        assert(strings_text(before_keys)[0] == in_keys[i as int]);
        let x = rest.remove(0);
        let kx = rest_keys.remove(0);
        assert(rest@ =~= before.drop_first());
        assert(apps_view(rest@) =~= apps_view(before).drop_first());
        assert(apps_view(rest@) =~= input.skip(i + 1));
        assert(rest_keys@ =~= before_keys.drop_first());
        assert(strings_text(rest_keys@) =~= strings_text(before_keys).drop_first());
        assert(strings_text(rest_keys@) =~= in_keys.skip(i + 1));
        let mut j = out.len();
        while j > 0 && !text_le(&out_keys[j - 1], &kx)
            invariant
                j <= out_keys@.len(),
                forall|l: int| j <= l < out_keys@.len() ==> !chars_le(#[trigger] out_keys@[l]@, kx@),
            decreases j,
        {
            j = j - 1;
        }
        proof {
            assert forall|l: int| 0 <= l < j implies chars_le(#[trigger] out_keys@[l]@, kx@) by {
                if l < j - 1 {
                    lemma_chars_le_transitive(out_keys@[l]@, out_keys@[j - 1]@, kx@);
                }
            }
        }
        let ghost old_keys = out_keys@;
        let ghost old_out = out@;
        let ghost old_order = order;
        out.insert(j, x);
        out_keys.insert(j, kx);
        proof {
            order = order.insert(j as int, i as int);
            lemma_chars_le_reflexive(kx@);
            assert forall|k: int| 0 <= k < out_keys@.len() implies #[trigger] out_keys@[k]@ == in_keys[order[k]] by {
                if k > j {
                    assert(out_keys@[k] == old_keys[k - 1]);
                    assert(order[k] == old_order[k - 1]);
                }
            }
            assert forall|k: int| 0 <= k < out@.len() implies #[trigger] out@[k]@ == input[order[k]] by {
                if k > j {
                    assert(out@[k] == old_out[k - 1]);
                    assert(order[k] == old_order[k - 1]);
                }
            }
            assert forall|k: int, l: int|
                0 <= k < l < out_keys@.len() implies chars_le(out_keys@[k]@, out_keys@[l]@) by {
                if l == j {
                } else if k == j {
                    lemma_chars_le_total(old_keys[l - 1]@, kx@);
                } else if k < j && l > j {
                    assert(chars_le(old_keys[k]@, kx@));
                    lemma_chars_le_total(old_keys[l - 1]@, kx@);
                    lemma_chars_le_transitive(old_keys[k]@, kx@, old_keys[l - 1]@);
                } else if k > j {
                    assert(out_keys@[k] == old_keys[k - 1]);
                    assert(out_keys@[l] == old_keys[l - 1]);
                }
            }
            assert forall|k: int, l: int|
                0 <= k < l < out_keys@.len() && out_keys@[k]@ == out_keys@[l]@ implies order[k] < order[l] by {
                if l == j {
                } else if k == j {
                    assert(out_keys@[l] == old_keys[l - 1]);
                } else if k > j {
                    assert(out_keys@[k] == old_keys[k - 1]);
                    assert(out_keys@[l] == old_keys[l - 1]);
                } else if l > j {
                    assert(out_keys@[l] == old_keys[l - 1]);
                    assert(chars_le(old_keys[k]@, kx@));
                }
            }
        }
        i = i + 1;
    }
    proof {
        let ghost output = apps_view(out@);
        assert forall|k: int| 0 <= k < output.len() implies #[trigger] output[k] == input[order[k]] by {
        }
        assert forall|k: int, l: int| 0 <= k < l < order.len() implies chars_le(in_keys[order[k]], in_keys[order[l]]) by {
            assert(out_keys@[k]@ == in_keys[order[k]]);
            assert(out_keys@[l]@ == in_keys[order[l]]);
        }
        assert forall|k: int, l: int| 0 <= k < l < order.len() && in_keys[order[k]] == in_keys[order[l]] implies order[k] < order[l] by {
            assert(out_keys@[k]@ == in_keys[order[k]]);
            assert(out_keys@[l]@ == in_keys[order[l]]);
        }
        assert(stably_sorted_by(input, in_keys, output, order));
    }
    out
}

/// The apps sorted by name, ignoring case, keeping the order of equal names.
pub fn sort_apps(apps: Vec<AppEntry>) -> (sorted: Vec<AppEntry>)
    ensures
        exists|order: Seq<int>| stably_sorted(apps_view(apps@), apps_view(sorted@), order),
{
    let mut keys: Vec<String> = Vec::new();
    let mut k: usize = 0;
    while k < apps.len()
        invariant
            k <= apps.len(),
            keys@.len() == k,
            forall|l: int| 0 <= l < k ==> #[trigger] keys@[l]@ == sort_key(apps@[l]@),
        decreases apps.len() - k,
    {
        keys.push(to_lowercase(apps[k].name.as_str()));
        k = k + 1;
    }
    assert(strings_text(keys@) =~= sort_keys(apps_view(apps@)));
    let ghost input = apps_view(apps@);
    let sorted = sort_by_keys(apps, keys);
    proof {
        let order = choose|order: Seq<int>|
            stably_sorted_by(input, strings_text(keys@), apps_view(sorted@), order);
        assert(stably_sorted(input, apps_view(sorted@), order));
    }
    sorted
}

/// The text of launcher files: name and contents.
pub open spec fn files_text(files: Seq<(String, String)>) -> Seq<(Seq<char>, Seq<char>)> {
    files.map_values(|f: (String, String)| (f.0@, f.1@))
}

/// The apps that a list of launcher files (name and text) stands for, in
/// the order of the files, the hidden ones and other files left out.
pub open spec fn launcher_apps(files: Seq<(Seq<char>, Seq<char>)>) -> Seq<AppView>
    decreases files.len(),
{
    if files.len() == 0 {
        Seq::empty()
    } else {
        let rest = launcher_apps(files.drop_last());
        match launcher_app(files.last().0, files.last().1) {
            Some(a) => rest.push(a),
            None => rest,
        }
    }
}

/// The visible Waydroid apps among the readable files of a directory, given
/// as file name and text, sorted by name ignoring case.
pub fn apps_from_launchers(files: &Vec<(String, String)>) -> (apps: Vec<AppEntry>)
    ensures
        exists|order: Seq<int>|
            stably_sorted(launcher_apps(files_text(files@)), apps_view(apps@), order),
{
    let ghost all = files_text(files@);
    let mut found: Vec<AppEntry> = Vec::new();
    let mut k: usize = 0;
    assert(all.take(0) =~= Seq::<(Seq<char>, Seq<char>)>::empty());
    while k < files.len()
        invariant
            k <= files.len(),
            all == files_text(files@),
            apps_view(found@) == launcher_apps(all.take(k as int)),
        decreases files.len() - k,
    {
        let (name, text) = (&files[k].0, &files[k].1);
        let ghost before = found@;
        assert(all.take(k + 1).drop_last() =~= all.take(k as int));
        assert(all.take(k + 1).last() == (name@, text@));
        if let Some(app) = launcher_entry(name.as_str(), text.as_str()) {
            found.push(app);
            assert(apps_view(found@) =~= apps_view(before).push(app@));
        }
        k = k + 1;
    }
    assert(all.take(files.len() as int) =~= all);
    sort_apps(found)
}

/// A launcher file is named `waydroid.` + its package + `.desktop`: any
/// package (even an empty one) named so is found again, and a name that gives
/// a package is exactly that.
pub proof fn lemma_package_names(file: Seq<char>, package: Seq<char>)
    ensures
        package_of("waydroid."@ + package + ".desktop"@) == Some(package),
        package_of(file) matches Some(p) ==> file == "waydroid."@ + p + ".desktop"@,
{
    reveal_strlit("waydroid.");
    reveal_strlit(".desktop");
    let f = "waydroid."@ + package + ".desktop"@;
    assert(f.take(9) =~= "waydroid."@);
    assert(f.skip(f.len() - 8) =~= ".desktop"@);
    assert(f.subrange(9, f.len() - 8) =~= package);
    if package_of(file) is Some {
        let p = file.subrange(9, file.len() - 8);
        assert(file =~= file.take(9) + p + file.skip(file.len() - 8));
    }
}

/// Which launchers become apps: none for a file that is not a Waydroid
/// launcher, none for a hidden one, and otherwise the app of that package,
/// named by its `Name` (or the package when it has none), with its `Icon`
/// (or none).
pub proof fn lemma_launcher_apps(file: Seq<char>, text: Seq<char>)
    ensures
        package_of(file) is None ==> launcher_app(file, text) is None,
        last_value(desktop_fields(text), "NoDisplay"@) matches Some(v) && is_true_ignoring_case(v)
            ==> launcher_app(file, text) is None,
        ({
            let fields = desktop_fields(text);
            let hidden = last_value(fields, "NoDisplay"@) matches Some(v) && is_true_ignoring_case(v);
            package_of(file) is Some && !hidden ==> {
                let p = package_of(file)->0;
                &&& launcher_app(file, text) is Some
                &&& launcher_app(file, text)->0.package == p
                &&& (last_value(fields, "Name"@) matches Some(n) ==> launcher_app(file, text)->0.name == n)
                &&& (last_value(fields, "Name"@) is None ==> launcher_app(file, text)->0.name == p)
                &&& (last_value(fields, "Icon"@) matches Some(i) ==> launcher_app(file, text)->0.icon == i)
                &&& (last_value(fields, "Icon"@) is None ==> launcher_app(file, text)->0.icon.len() == 0)
            }
        }),
        is_true_ignoring_case("true"@) && is_true_ignoring_case("TRUE"@),
        !is_true_ignoring_case("false"@),
{
    reveal_strlit("true");
    reveal_strlit("TRUE");
    reveal_strlit("false");
}

/// Text with no `[Desktop Entry]` line holds no pairs: keys outside that
/// group, and before any group, are never read.
pub proof fn lemma_fields_only_in_entry(ls: Seq<Seq<char>>)
    requires
        forall|k: int| 0 <= k < ls.len() ==> trim(#[trigger] ls[k]) != "[Desktop Entry]"@,
    ensures
        entry_fields(ls, false).len() == 0,
    decreases ls.len(),
{
    if ls.len() > 0 {
        assert(forall|k: int| 0 <= k < ls.drop_first().len() ==> #[trigger] ls.drop_first()[k] == ls[k + 1]);
        lemma_fields_only_in_entry(ls.drop_first());
    }
}

/// Whether some position of `order` takes the input at `j`.
pub open spec fn takes(order: Seq<int>, j: int) -> bool {
    exists|i: int| 0 <= i < order.len() && order[i] == j
}

/// A stable sort keeps every app: as many apps come out as went in, each one
/// taken from a position of the input, and every position taken.
pub proof fn lemma_sort_keeps_every_app(input: Seq<AppView>, output: Seq<AppView>, order: Seq<int>)
    requires
        stably_sorted(input, output, order),
    ensures
        output.len() == input.len(),
        forall|i: int|
            0 <= i < output.len() ==> 0 <= order[i] < input.len() && #[trigger] output[i]
                == input[order[i]],
        forall|j: int| 0 <= j < input.len() ==> #[trigger] takes(order, j),
{
    assert forall|j: int| 0 <= j < input.len() implies #[trigger] takes(order, j) by {
        lemma_order_onto(order, input.len() as int, j);
    }
}

/// A stable sort puts the apps in order of their lower-cased names, and apps
/// whose lower-cased names are equal in the order they came in.
pub proof fn lemma_sort_orders_by_name(input: Seq<AppView>, output: Seq<AppView>, order: Seq<int>)
    requires
        stably_sorted(input, output, order),
    ensures
        forall|i: int, j: int|
            0 <= i < j < output.len() ==> chars_le(
                lowercase(#[trigger] output[i].name),
                lowercase(#[trigger] output[j].name),
            ),
        forall|i: int, j: int|
            0 <= i < j < output.len() && lowercase(#[trigger] output[i].name) == lowercase(
                #[trigger] output[j].name,
            ) ==> order[i] < order[j],
{
    assert forall|i: int, j: int| 0 <= i < j < output.len() implies chars_le(
        lowercase(#[trigger] output[i].name),
        lowercase(#[trigger] output[j].name),
    ) && (lowercase(output[i].name) == lowercase(output[j].name) ==> order[i] < order[j]) by {
        assert(output[i] == input[order[i]]);
        assert(output[j] == input[order[j]]);
        assert(sort_keys(input)[order[i]] == lowercase(input[order[i]].name));
        assert(sort_keys(input)[order[j]] == lowercase(input[order[j]].name));
    }
}

/// `n` distinct indices below `n` take every index below `n`.
proof fn lemma_order_onto(order: Seq<int>, n: int, j: int)
    requires
        order.len() == n,
        forall|i: int| 0 <= i < n ==> 0 <= #[trigger] order[i] < n,
        forall|a: int, b: int| 0 <= a < b < n ==> order[a] != order[b],
        0 <= j < n,
    ensures
        exists|i: int| 0 <= i < n && #[trigger] order[i] == j,
{
    let s = order.to_set();
    let target = Set::new(|x: int| 0 <= x < n);
    assert(s.subset_of(target)) by {
        assert forall|x: int| s.contains(x) implies target.contains(x) by {
            let i = choose|i: int| 0 <= i < order.len() && order[i] == x;
        }
    }
    assert(order.no_duplicates()) by {
        assert forall|a: int, b: int| 0 <= a < order.len() && 0 <= b < order.len() && a != b implies order[a] != order[b] by {
            if a > b {
            }
        }
    }
    order.unique_seq_to_set();
    vstd::set_lib::lemma_int_range(0, n);
    assert(target =~= vstd::set_lib::set_int_range(0, n));
    vstd::set_lib::lemma_len_subset(s, target);
    if !s.contains(j) {
        vstd::set_lib::lemma_len_subset(s, target.remove(j));
    }
    assert(s.contains(j));
}

} // verus!
