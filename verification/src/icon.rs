use vstd::prelude::*;

verus! {

use vstd::string::StrSliceExecFns;
use vstd::string::StringExecFns;

// The icon resolver's computable parts. Running the external imaging
// process is outside work: this module builds the script handed to it —
// escaping arbitrary path content — and decides, from the process
// outcome, whether an encoded icon was produced. Absence of an icon is
// an ordinary result, never an error.

/// Quote escaping for the external shell's single-quoted literals:
/// every quote is doubled, everything else is kept.
pub open spec fn escaped(s: Seq<char>) -> Seq<char>
    decreases s.len(),
{
    if s.len() == 0 {
        Seq::empty()
    } else {
        escaped(s.drop_last()) + (if s.last() == '\'' {
            seq!['\'', '\'']
        } else {
            seq![s.last()]
        })
    }
}

/// The script up to the first embedded path.
pub open spec fn script_head() -> Seq<char> {
    "\n$ErrorActionPreference = 'Stop'\ntry {\n    Add-Type -Assembly System.Drawing\n    $shell = New-Object -ComObject WScript.Shell\n    $lnk = $shell.CreateShortcut('"@
}

/// The script between the two embedded paths.
pub open spec fn script_mid() -> Seq<char> {
    "')\n    $target = $lnk.TargetPath\n    if (-not $target -or -not (Test-Path $target)) { $target = '"@
}

/// The script after the second embedded path.
pub open spec fn script_tail() -> Seq<char> {
    "' }\n    $icon = [System.Drawing.Icon]::ExtractAssociatedIcon($target)\n    if (-not $icon) { exit 1 }\n    $bmp = $icon.ToBitmap()\n    $ms = New-Object System.IO.MemoryStream\n    $bmp.Save($ms, [System.Drawing.Imaging.ImageFormat]::Png)\n    [Convert]::ToBase64String($ms.ToArray())\n} catch { exit 1 }\n"@
}

/// The whole script for one shortcut path: resolve the link target,
/// fall back to the shortcut itself, extract the associated icon, and
/// print it encoded. The path is embedded twice, escaped both times.
pub open spec fn icon_script(path: Seq<char>) -> Seq<char> {
    script_head() + escaped(path) + script_mid() + escaped(path) + script_tail()
}

/// A whitespace character, as trimming of the process output counts it.
pub open spec fn is_space(c: char) -> bool {
    c == ' ' || c == '\t' || c == '\n' || c == '\r'
}

/// The number of leading whitespace characters.
pub open spec fn lead_spaces(s: Seq<char>) -> int
    decreases s.len(),
{
    if s.len() == 0 {
        0
    } else if is_space(s[0]) {
        1 + lead_spaces(s.drop_first())
    } else {
        0
    }
}

/// The number of trailing whitespace characters.
pub open spec fn trail_spaces(s: Seq<char>) -> int
    decreases s.len(),
{
    if s.len() == 0 {
        0
    } else if is_space(s.last()) {
        1 + trail_spaces(s.drop_last())
    } else {
        0
    }
}

/// The sequence with leading and trailing whitespace removed.
pub open spec fn trimmed(s: Seq<char>) -> Seq<char> {
    if lead_spaces(s) == s.len() {
        Seq::empty()
    } else {
        s.subrange(lead_spaces(s), s.len() - trail_spaces(s))
    }
}

/// An index preceded only by whitespace, and itself not whitespace or
/// the end, is where the leading whitespace stops.
proof fn lemma_lead_spaces_unique(s: Seq<char>, a: int)
    requires
        0 <= a <= s.len(),
        forall|j: int| 0 <= j < a ==> is_space(s[j]),
        a < s.len() ==> !is_space(s[a]),
    ensures
        lead_spaces(s) == a,
    decreases s.len(),
{
    if s.len() == 0 {
    } else if is_space(s[0]) {
        assert(a > 0);
        lemma_lead_spaces_unique(s.drop_first(), a - 1);
    } else {
        assert(a == 0);
    }
}

/// An index followed only by whitespace, and itself not whitespace,
/// is where the trailing whitespace starts.
proof fn lemma_trail_spaces_unique(s: Seq<char>, b: int)
    requires
        0 <= b < s.len(),
        forall|j: int| b < j < s.len() ==> is_space(s[j]),
        !is_space(s[b]),
    ensures
        trail_spaces(s) == s.len() - 1 - b,
    decreases s.len(),
{
    if b == s.len() - 1 {
    } else {
        assert(is_space(s.last()));
        lemma_trail_spaces_unique(s.drop_last(), b);
    }
}

/// Escapes a path for embedding in a single-quoted script literal.
pub fn escape_single_quotes(s: &str) -> (r: String)
    ensures
        r@ == escaped(s@),
{
    let len = s.unicode_len();
    let mut out = String::new();
    proof {
        assert(s@.take(0) =~= Seq::<char>::empty());
    }
    let mut i: usize = 0;
    while i < len
        invariant
            i <= len,
            len == s@.len(),
            out@ == escaped(s@.take(i as int)),
        decreases len - i,
    {
        proof {
            assert(s@.take(i + 1).drop_last() =~= s@.take(i as int));
            assert(s@.take(i + 1).last() == s@[i as int]);
        }
        let c = s.get_char(i);
        if c == '\'' {
            out.append("''");
            proof {
                reveal_strlit("''");
                assert("''"@ =~= seq!['\'', '\'']);
            }
        } else {
            let piece = s.substring_char(i, i + 1);
            out.append(piece);
            proof {
                assert(piece@ =~= seq![s@[i as int]]);
            }
        }
        i = i + 1;
    }
    proof {
        assert(s@.take(len as int) =~= s@);
    }
    out
}

/// Builds the external script that extracts an icon for one shortcut
/// path, escaping arbitrary path content.
pub fn build_icon_script(lnk_path: &str) -> (r: String)
    ensures
        r@ == icon_script(lnk_path@),
{
    let esc = escape_single_quotes(lnk_path);
    let mut out = String::from_str(
        "\n$ErrorActionPreference = 'Stop'\ntry {\n    Add-Type -Assembly System.Drawing\n    $shell = New-Object -ComObject WScript.Shell\n    $lnk = $shell.CreateShortcut('",
    );
    out.append(esc.as_str());
    out.append(
        "')\n    $target = $lnk.TargetPath\n    if (-not $target -or -not (Test-Path $target)) { $target = '",
    );
    out.append(esc.as_str());
    out.append(
        "' }\n    $icon = [System.Drawing.Icon]::ExtractAssociatedIcon($target)\n    if (-not $icon) { exit 1 }\n    $bmp = $icon.ToBitmap()\n    $ms = New-Object System.IO.MemoryStream\n    $bmp.Save($ms, [System.Drawing.Imaging.ImageFormat]::Png)\n    [Convert]::ToBase64String($ms.ToArray())\n} catch { exit 1 }\n",
    );
    proof {
        assert(out@ =~= icon_script(lnk_path@));
    }
    out
}

/// Decides the icon result from the external process outcome: nothing
/// when the process failed, nothing when its output trims to empty,
/// else the trimmed output as the encoded image.
pub fn extract_icon_base64(output: Option<String>) -> (r: Option<String>)
    ensures
        output is None ==> r is None,
        output matches Some(o) ==> if trimmed(o@).len() == 0 {
            r is None
        } else {
            r matches Some(s) && s@ == trimmed(o@)
        },
{
    let o = match output {
        None => { return None; },
        Some(o) => o,
    };
    let s = o.as_str();
    let len = s.unicode_len();
    let a = first_non_space(s);
    if a == len {
        proof {
            lemma_lead_spaces_unique(s@, a as int);
        }
        return None;
    }
    proof {
        lemma_lead_spaces_unique(s@, a as int);
    }
    let b = last_non_space(s, a);
    proof {
        lemma_trail_spaces_unique(s@, b as int);
    }
    let t = s.substring_char(a, b + 1);
    proof {
        assert(t@ =~= trimmed(o@));
        assert(trimmed(o@).len() > 0);
    }
    Some(String::from_str(t))
}

/// Whitespace test for trimming.
fn is_space_exec(c: char) -> (r: bool)
    ensures
        r == is_space(c),
{
    c == ' ' || c == '\t' || c == '\n' || c == '\r'
}

/// The index of the first non-whitespace character, or the length when
/// there is none.
fn first_non_space(s: &str) -> (a: usize)
    ensures
        a <= s@.len(),
        forall|j: int| 0 <= j < a ==> is_space(s@[j]),
        a < s@.len() ==> !is_space(s@[a as int]),
{
    let len = s.unicode_len();
    let mut a: usize = 0;
    while a < len
        invariant
            a <= len,
            len == s@.len(),
            forall|j: int| 0 <= j < a ==> is_space(s@[j]),
        decreases len - a,
    {
        if !is_space_exec(s.get_char(a)) {
            return a;
        }
        a = a + 1;
    }
    a
}

/// The index of the last non-whitespace character, given the first one.
fn last_non_space(s: &str, a: usize) -> (b: usize)
    requires
        a < s@.len(),
        !is_space(s@[a as int]),
    ensures
        a <= b < s@.len(),
        !is_space(s@[b as int]),
        forall|j: int| b < j < s@.len() ==> is_space(s@[j]),
{
    let len = s.unicode_len();
    let mut b: usize = len - 1;
    while b > a
        invariant
            a <= b < len,
            len == s@.len(),
            forall|j: int| b < j < len ==> is_space(s@[j]),
        decreases b,
    {
        if !is_space_exec(s.get_char(b)) {
            return b;
        }
        b = b - 1;
    }
    b
}

} // verus!
