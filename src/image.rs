use vstd::prelude::*;

verus! {

/// Path separator of the host (`/`).
pub const HOST_SEPARATOR: u8 = 0x2f;

/// Path separator of the disc's naming convention (`\`).
pub const DISC_SEPARATOR: u8 = 0x5c;

/// The device prefix of a disc path, `cdrom:\`.
pub open spec fn cdrom_prefix() -> Seq<u8> {
    seq![0x63u8, 0x64, 0x72, 0x6f, 0x6d, 0x3a, 0x5c]
}

/// The file-version suffix that ends a disc path, `;1`.
pub open spec fn version_suffix() -> Seq<u8> {
    seq![0x3bu8, 0x31]
}

/// The key of the boot line of the descriptor, `BOOT`.
pub open spec fn boot_keyword() -> Seq<u8> {
    seq![0x42u8, 0x4f, 0x4f, 0x54]
}

/// Whether `lit` occurs in `t` at position `i`.
pub open spec fn has_at(t: Seq<u8>, i: int, lit: Seq<u8>) -> bool {
    0 <= i && i + lit.len() <= t.len() && t.subrange(i, i + lit.len()) == lit
}

/// Whether a token ends with the file-version suffix.
pub open spec fn is_complete(t: Seq<u8>) -> bool {
    t.len() >= 2 && has_at(t, t.len() - 2, version_suffix())
}

/// `folder` and `name` joined by the host separator.
pub open spec fn joined(folder: Seq<u8>, name: Seq<u8>) -> Seq<u8> {
    folder + seq![HOST_SEPARATOR] + name
}

/// `p` with each disc separator replaced by the host separator.
pub open spec fn host_separators(p: Seq<u8>) -> Seq<u8> {
    Seq::new(p.len(), |i: int| if p[i] == DISC_SEPARATOR { HOST_SEPARATOR } else { p[i] })
}

/// The host-relative path that a request token `cdrom:\<path>;1` names, if it has that form.
pub open spec fn request_path(token: Seq<u8>) -> Option<Seq<u8>> {
    if token.len() > cdrom_prefix().len() + version_suffix().len() && has_at(token, 0, cdrom_prefix())
        && is_complete(token) {
        Some(host_separators(token.subrange(cdrom_prefix().len() as int, token.len() - 2)))
    } else {
        None
    }
}

/// ASCII whitespace.
pub open spec fn is_space(b: u8) -> bool {
    b == 0x20 || (0x09 <= b && b <= 0x0d)
}

/// ASCII letters and digits.
pub open spec fn is_alnum(b: u8) -> bool {
    (0x30 <= b && b <= 0x39) || (0x41 <= b && b <= 0x5a) || (0x61 <= b && b <= 0x7a)
}

/// The first position at or after `i` that holds no whitespace.
pub open spec fn skip_spaces(t: Seq<u8>, i: int) -> int
    decreases t.len() - i,
{
    if 0 <= i < t.len() && is_space(t[i]) {
        skip_spaces(t, i + 1)
    } else {
        i
    }
}

/// The first position at or after `i` that holds no letter or digit.
pub open spec fn alnum_end(t: Seq<u8>, i: int) -> int
    decreases t.len() - i,
{
    if 0 <= i < t.len() && is_alnum(t[i]) {
        alnum_end(t, i + 1)
    } else {
        i
    }
}

/// The executable name of a boot line `BOOT = cdrom:\NAME.EXT;1` that starts at `i`,
/// where `NAME` has 1 to 8 letters or digits and `EXT` 1 to 3.
pub open spec fn boot_at(t: Seq<u8>, i: int) -> Option<Seq<u8>> {
    let eq = skip_spaces(t, i + 4);
    let dev = skip_spaces(t, eq + 1);
    let n0 = dev + 7;
    let n1 = alnum_end(t, n0);
    let e0 = n1 + 1;
    let e1 = alnum_end(t, e0);
    if has_at(t, i, boot_keyword()) && eq < t.len() && t[eq] == 0x3d && has_at(t, dev, cdrom_prefix())
        && 1 <= n1 - n0 <= 8 && n1 < t.len() && t[n1] == 0x2e && 1 <= e1 - e0 <= 3 && has_at(
        t,
        e1,
        version_suffix(),
    ) {
        Some(t.subrange(n0, e1))
    } else {
        None
    }
}

/// The executable name of the first boot line that starts at or after `i`.
pub open spec fn first_boot(t: Seq<u8>, i: int) -> Option<Seq<u8>>
    decreases t.len() - i,
{
    if i < 0 || i >= t.len() {
        None
    } else {
        match boot_at(t, i) {
            Some(n) => Some(n),
            None => first_boot(t, i + 1),
        }
    }
}

fn cdrom_prefix_bytes() -> (r: Vec<u8>)
    ensures
        r@ == cdrom_prefix(),
{
    vec![0x63u8, 0x64, 0x72, 0x6f, 0x6d, 0x3a, 0x5c]
}

fn version_suffix_bytes() -> (r: Vec<u8>)
    ensures
        r@ == version_suffix(),
{
    vec![0x3bu8, 0x31]
}

fn boot_keyword_bytes() -> (r: Vec<u8>)
    ensures
        r@ == boot_keyword(),
{
    vec![0x42u8, 0x4f, 0x4f, 0x54]
}

/// Whether `lit` occurs in `t` at position `i`.
pub fn matches_at(t: &[u8], i: usize, lit: &[u8]) -> (r: bool)
    ensures
        r == has_at(t@, i as int, lit@),
{
    if i > t.len() || lit.len() > t.len() - i {
        return false;
    }
    let tl: usize = t.len();
    let mut k: usize = 0;
    while k < lit.len()
        invariant
            tl == t@.len(),
            i + lit@.len() <= t@.len(),
            k <= lit@.len(),
            forall|m: int| 0 <= m < k ==> t@[i + m] == lit@[m],
        decreases lit.len() - k,
    {
        if t[i + k] != lit[k] {
            assert(t@.subrange(i as int, i + lit@.len())[k as int] != lit@[k as int]);
            return false;
        }
        k = k + 1;
    }
    assert(t@.subrange(i as int, i + lit@.len()) =~= lit@);
    true
}

/// Whether a request token ends with the file-version suffix `;1`.
pub fn token_complete(t: &[u8]) -> (r: bool)
    ensures
        r == is_complete(t@),
{
    t.len() >= 2 && matches_at(t, t.len() - 2, version_suffix_bytes().as_slice())
}

/// Joins `folder` and `name` with the host separator.
pub fn join_path(folder: &[u8], name: &[u8]) -> (r: Vec<u8>)
    ensures
        r@ == joined(folder@, name@),
{
    let mut r: Vec<u8> = Vec::new();
    let mut i: usize = 0;
    while i < folder.len()
        invariant
            i <= folder@.len(),
            r@ == folder@.subrange(0, i as int),
        decreases folder.len() - i,
    {
        r.push(folder[i]);
        i = i + 1;
    }
    r.push(HOST_SEPARATOR);
    let mut j: usize = 0;
    while j < name.len()
        invariant
            i == folder@.len(),
            j <= name@.len(),
            r@ == folder@ + seq![HOST_SEPARATOR] + name@.subrange(0, j as int),
        decreases name.len() - j,
    {
        r.push(name[j]);
        j = j + 1;
    }
    assert(name@.subrange(0, name@.len() as int) =~= name@);
    r
}

/// The host-relative path named by a request token of the form `cdrom:\<path>;1`,
/// with its disc separators turned into host separators; `None` for any other token.
pub fn translate_request(token: &[u8]) -> (r: Option<Vec<u8>>)
    ensures
        r matches Some(p) ==> request_path(token@) == Some(p@),
        r is None ==> request_path(token@) is None,
{
    let prefix = cdrom_prefix_bytes();
    if token.len() <= prefix.len() + 2 || !matches_at(token, 0, prefix.as_slice()) || !token_complete(
        token,
    ) {
        return None;
    }
    let end: usize = token.len() - 2;
    let mut p: Vec<u8> = Vec::new();
    let mut i: usize = 7;
    while i < end
        invariant
            7 <= i <= end,
            end == token@.len() - 2,
            p@ == host_separators(token@.subrange(7, i as int)),
        decreases end - i,
    {
        let b = token[i];
        if b == DISC_SEPARATOR {
            p.push(HOST_SEPARATOR);
        } else {
            p.push(b);
        }
        assert(p@ =~= host_separators(token@.subrange(7, i + 1)));
        i = i + 1;
    }
    Some(p)
}

/// The absolute host path of the file that a request token names under `folder`.
pub fn resolve_request(folder: &[u8], token: &[u8]) -> (r: Option<Vec<u8>>)
    ensures
        r is Some <==> request_path(token@) is Some,
        r matches Some(path) ==> path@ == joined(folder@, request_path(token@)->0),
{
    match translate_request(token) {
        Some(p) => Some(join_path(folder, p.as_slice())),
        None => None,
    }
}

/// The first position at or after `i` that holds no whitespace.
fn skip_spaces_from(t: &[u8], i: usize) -> (r: usize)
    requires
        i <= t@.len(),
    ensures
        r == skip_spaces(t@, i as int),
        i <= r <= t@.len(),
{
    let mut k: usize = i;
    while k < t.len() && (t[k] == 0x20 || (0x09 <= t[k] && t[k] <= 0x0d))
        invariant
            i <= k <= t@.len(),
            skip_spaces(t@, i as int) == skip_spaces(t@, k as int),
        decreases t.len() - k,
    {
        k = k + 1;
    }
    k
}

/// The first position at or after `i` that holds no letter or digit.
fn alnum_end_from(t: &[u8], i: usize) -> (r: usize)
    requires
        i <= t@.len(),
    ensures
        r == alnum_end(t@, i as int),
        i <= r <= t@.len(),
{
    let mut k: usize = i;
    while k < t.len() && ((0x30 <= t[k] && t[k] <= 0x39) || (0x41 <= t[k] && t[k] <= 0x5a) || (0x61
        <= t[k] && t[k] <= 0x7a))
        invariant
            i <= k <= t@.len(),
            alnum_end(t@, i as int) == alnum_end(t@, k as int),
        decreases t.len() - k,
    {
        k = k + 1;
    }
    k
}

/// The executable name of a boot line `BOOT = cdrom:\NAME.EXT;1` that starts at `i`.
pub fn boot_name_at(t: &[u8], i: usize) -> (r: Option<Vec<u8>>)
    requires
        i < t@.len(),
    ensures
        r matches Some(n) ==> boot_at(t@, i as int) == Some(n@),
        r is None ==> boot_at(t@, i as int) is None,
{
    let tl: usize = t.len();
    let keyword = boot_keyword_bytes();
    if !matches_at(t, i, keyword.as_slice()) {
        return None;
    }
    assert(keyword@.len() == 4);
    let eq = skip_spaces_from(t, i + 4);
    if eq >= t.len() || t[eq] != 0x3d {
        return None;
    }
    let dev = skip_spaces_from(t, eq + 1);
    let prefix = cdrom_prefix_bytes();
    if !matches_at(t, dev, prefix.as_slice()) {
        return None;
    }
    assert(prefix@.len() == 7);
    let n0 = dev + 7;
    let n1 = alnum_end_from(t, n0);
    if n1 - n0 < 1 || n1 - n0 > 8 || n1 >= t.len() || t[n1] != 0x2e {
        return None;
    }
    let e0 = n1 + 1;
    let e1 = alnum_end_from(t, e0);
    if e1 - e0 < 1 || e1 - e0 > 3 || !matches_at(t, e1, version_suffix_bytes().as_slice()) {
        return None;
    }
    let name = crate::transfer::copy_range(t, n0, e1);
    Some(name)
}

/// The executable name given by the first boot line of a descriptor's text.
pub fn get_exe_name(descriptor: &[u8]) -> (r: Option<Vec<u8>>)
    ensures
        r matches Some(n) ==> first_boot(descriptor@, 0) == Some(n@),
        r is None ==> first_boot(descriptor@, 0) is None,
{
    let mut i: usize = 0;
    while i < descriptor.len()
        invariant
            i <= descriptor@.len(),
            first_boot(descriptor@, 0) == first_boot(descriptor@, i as int),
        decreases descriptor.len() - i,
    {
        match boot_name_at(descriptor, i) {
            Some(n) => {
                return Some(n);
            },
            None => {},
        }
        i = i + 1;
    }
    None
}

/// The absolute host path of the boot executable that a descriptor's text names
/// under `folder`.
pub fn exe_path(folder: &[u8], descriptor: &[u8]) -> (r: Option<Vec<u8>>)
    ensures
        r is Some <==> first_boot(descriptor@, 0) is Some,
        r matches Some(path) ==> path@ == joined(folder@, first_boot(descriptor@, 0)->0),
{
    match get_exe_name(descriptor) {
        Some(name) => Some(join_path(folder, name.as_slice())),
        None => None,
    }
}

} // verus!
