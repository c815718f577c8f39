//! What the device commands' replies mean: the shell's output, the package
//! list and the installer's verdict.
use crate::codec::MAX_COMMAND_LEN;
use crate::commands::{sends, shell_frame, Request};
use crate::errors::{AdbShellError, InstallError, PackagesError, PradbErrors, Response};
use crate::text::{piece_to_string, split_on, split_ranges};
use vstd::prelude::*;
use vstd::string::{StringExecFns, StringSliceAdditionalSpecFns};
use vstd::utf8::*;

verus! {

/// The bytes of `package:`, which starts each line of the package list.
pub open spec fn package_prefix() -> Seq<u8> {
    seq![0x70u8, 0x61u8, 0x63u8, 0x6Bu8, 0x61u8, 0x67u8, 0x65u8, 0x3Au8]
}

/// The bytes of `Error:`, which marks a failed installation.
pub open spec fn error_marker() -> Seq<u8> {
    seq![0x45u8, 0x72u8, 0x72u8, 0x6Fu8, 0x72u8, 0x3Au8]
}

/// The lines that are not empty, in order.
pub open spec fn non_empty(lines: Seq<Seq<u8>>) -> Seq<Seq<u8>>
    decreases lines.len(),
{
    if lines.len() == 0 {
        Seq::empty()
    } else if lines.last().len() == 0 {
        non_empty(lines.drop_last())
    } else {
        non_empty(lines.drop_last()).push(lines.last())
    }
}

/// Every line that is not empty starts with `package:`.
pub open spec fn all_packages(lines: Seq<Seq<u8>>) -> bool {
    forall|i: int|
        0 <= i < lines.len() && #[trigger] lines[i].len() > 0 ==> lines[i].len() >= 8
            && lines[i].subrange(0, 8) == package_prefix()
}

/// `pat` occurs in `b`.
pub open spec fn contains(b: Seq<u8>, pat: Seq<u8>) -> bool {
    exists|i: int| 0 <= i <= b.len() - pat.len() && #[trigger] b.subrange(i, i + pat.len()) == pat
}

/// The output of a shell command: the body of an `Okay` response; a `Fail`
/// or `Unknown` response is a `ResponseError` carrying its text.
pub fn shell_output(resp: Response) -> (r: Result<String, AdbShellError>)
    ensures
        resp matches Response::Okay(s) ==> r == Ok::<String, AdbShellError>(s),
        resp matches Response::Fail(s) ==> r matches Err(AdbShellError::ResponseError(e)) && e
            == s,
        resp matches Response::Unknown(s) ==> r matches Err(AdbShellError::ResponseError(e)) && e
            == s,
{
    match resp {
        Response::Okay(s) => Ok(s),
        Response::Fail(s) => Err(AdbShellError::ResponseError(s)),
        Response::Unknown(s) => Err(AdbShellError::ResponseError(s)),
    }
}

fn starts_with_package(b: &[u8], s: usize, e: usize) -> (r: bool)
    requires
        s <= e <= b@.len(),
    ensures
        r == (e - s >= 8 && b@.subrange(s as int, s + 8) == package_prefix()),
{
    if e - s >= 8 && b[s] == 0x70 && b[s + 1] == 0x61 && b[s + 2] == 0x63 && b[s + 3] == 0x6B
        && b[s + 4] == 0x61 && b[s + 5] == 0x67 && b[s + 6] == 0x65 && b[s + 7] == 0x3A {
        assert(b@.subrange(s as int, s + 8) =~= package_prefix());
        true
    } else {
        if e - s >= 8 {
            assert(b@.subrange(s as int, s + 8)[0] == b@[s as int]);
            assert(b@.subrange(s as int, s + 8)[1] == b@[s + 1]);
            assert(b@.subrange(s as int, s + 8)[2] == b@[s + 2]);
            assert(b@.subrange(s as int, s + 8)[3] == b@[s + 3]);
            assert(b@.subrange(s as int, s + 8)[4] == b@[s + 4]);
            assert(b@.subrange(s as int, s + 8)[5] == b@[s + 5]);
            assert(b@.subrange(s as int, s + 8)[6] == b@[s + 6]);
            assert(b@.subrange(s as int, s + 8)[7] == b@[s + 7]);
        }
        false
    }
}

/// Parses the package list: each line that is not empty is `package:`
/// followed by a package name, and the names come out in the order of the
/// lines. Output with any other line is a `ResponseError` carrying it whole.
pub fn parse_packages(text: &str) -> (r: Result<Vec<String>, PackagesError>)
    ensures
        ({
            let lines = split_on(text.spec_bytes(), 0x0A);
            let names = non_empty(lines);
            &&& all_packages(lines) ==> r is Ok && r.unwrap()@.len() == names.len() && forall|k: int|
                0 <= k < names.len() ==> #[trigger] r.unwrap()@[k]@ == decode_utf8(
                    names[k].subrange(8, names[k].len() as int),
                )
            &&& !all_packages(lines) ==> (r matches Err(PackagesError::ResponseError(e)) && e@
                == text@)
        }),
{
    let b = text.as_bytes();
    proof {
        encode_utf8_valid_utf8(text@);
    }
    let ghost lines = split_on(b@, 0x0A);
    let ranges = split_ranges(b, 0x0A, 0, b.len());
    assert(b@.subrange(0, b@.len() as int) =~= b@);
    let mut out: Vec<String> = Vec::new();
    let mut k: usize = 0;
    while k < ranges.len()
        invariant
            b@ == text.spec_bytes(),
            valid_utf8(b@),
            lines == split_on(b@, 0x0A),
            ranges@.len() == lines.len(),
            forall|j: int|
                0 <= j < ranges@.len() ==> {
                    &&& 0 <= #[trigger] ranges@[j].0 <= ranges@[j].1 <= b@.len()
                    &&& b@.subrange(ranges@[j].0 as int, ranges@[j].1 as int) == lines[j]
                    &&& (ranges@[j].1 == b@.len() || b@[ranges@[j].1 as int] == 0x0A)
                },
            k <= ranges@.len(),
            all_packages(lines.subrange(0, k as int)),
            out@.len() == non_empty(lines.subrange(0, k as int)).len(),
            forall|j: int|
                0 <= j < out@.len() ==> #[trigger] out@[j]@ == decode_utf8(
                    non_empty(lines.subrange(0, k as int))[j].subrange(
                        8,
                        non_empty(lines.subrange(0, k as int))[j].len() as int,
                    ),
                ),
        decreases ranges@.len() - k,
    {
        let (s, e) = ranges[k];
        let ghost before = lines.subrange(0, k as int);
        let ghost after = lines.subrange(0, k + 1);
        assert(after.drop_last() =~= before);
        assert(after.last() == lines[k as int]);
        if s < e {
            if !starts_with_package(b, s, e) {
                assert(!all_packages(lines)) by {
                    assert(lines[k as int].len() > 0);
                    assert(lines[k as int] == b@.subrange(s as int, e as int));
                    if lines[k as int].len() >= 8 {
                        assert(lines[k as int].subrange(0, 8) =~= b@.subrange(s as int, s + 8));
                    }
                }
                return Err(PackagesError::ResponseError(String::from_str(text)));
            }
            assert(lines[k as int].subrange(0, 8) =~= b@.subrange(s as int, s + 8));
            assert(b@[s + 7] == 0x3A);
            let name = piece_to_string(b, s + 8, e);
            assert(lines[k as int].subrange(8, lines[k as int].len() as int) =~= b@.subrange(
                s + 8,
                e as int,
            ));
            out.push(name);
        }
        k = k + 1;
        assert(all_packages(lines.subrange(0, k as int))) by {
            assert forall|i: int|
                0 <= i < after.len() && #[trigger] after[i].len() > 0 implies after[i].len() >= 8
                && after[i].subrange(0, 8) == package_prefix() by {
                if i < k - 1 {
                    assert(after[i] == before[i]);
                }
            }
        }
    }
    assert(lines.subrange(0, k as int) =~= lines);
    Ok(out)
}

/// The packages in a reply to the package listing: an `Okay` reply is parsed;
/// `Fail` or `Unknown` is a `ResponseError` carrying the reply's text.
pub fn packages_from_response(resp: Response) -> (r: Result<Vec<String>, PackagesError>)
    ensures
        resp matches Response::Okay(s) ==> ({
            let lines = split_on(encode_utf8(s@), 0x0A);
            let names = non_empty(lines);
            &&& all_packages(lines) ==> r is Ok && r.unwrap()@.len() == names.len() && forall|k: int|
                0 <= k < names.len() ==> #[trigger] r.unwrap()@[k]@ == decode_utf8(
                    names[k].subrange(8, names[k].len() as int),
                )
            &&& !all_packages(lines) ==> (r matches Err(PackagesError::ResponseError(e)) && e@
                == s@)
        }),
        resp matches Response::Fail(s) ==> (r matches Err(PackagesError::ResponseError(e)) && e
            == s),
        resp matches Response::Unknown(s) ==> (r matches Err(PackagesError::ResponseError(e)) && e
            == s),
{
    match resp {
        Response::Okay(s) => parse_packages(s.as_str()),
        Response::Fail(s) => Err(PackagesError::ResponseError(s)),
        Response::Unknown(s) => Err(PackagesError::ResponseError(s)),
    }
}

fn find_error_marker(b: &[u8]) -> (r: bool)
    ensures
        r == contains(b@, error_marker()),
{
    let n = b.len();
    if n < 6 {
        assert(!contains(b@, error_marker()));
        return false;
    }
    let mut i: usize = 0;
    while i <= n - 6
        invariant
            n == b@.len(),
            n >= 6,
            forall|j: int| 0 <= j < i ==> #[trigger] b@.subrange(j, j + 6) != error_marker(),
        decreases n - i,
    {
        if b[i] == 0x45 && b[i + 1] == 0x72 && b[i + 2] == 0x72 && b[i + 3] == 0x6F && b[i + 4]
            == 0x72 && b[i + 5] == 0x3A {
            assert(b@.subrange(i as int, i + 6) =~= error_marker());
            return true;
        }
        assert(b@.subrange(i as int, i + 6) != error_marker()) by {
            let w = b@.subrange(i as int, i + 6);
            assert(w[0] == b@[i as int] && w[1] == b@[i + 1] && w[2] == b@[i + 2] && w[3] == b@[i
                + 3] && w[4] == b@[i + 4] && w[5] == b@[i + 5]);
        }
        i = i + 1;
    }
    false
}

/// The verdict of an installation from the installer's output: output that
/// holds `Error:` means the package was not installed; a failed shell
/// command is a `ServerError`.
pub fn install_outcome(output: Result<String, AdbShellError>) -> (r: Result<(), InstallError>)
    ensures
        output matches Err(e) ==> r matches Err(InstallError::ServerError(f)) && f == e,
        output matches Ok(s) ==> (contains(encode_utf8(s@), error_marker()) ==> (r matches Err(
            InstallError::PackageNotInstalled(t),
        ) && t == s)),
        output matches Ok(s) ==> (!contains(encode_utf8(s@), error_marker()) ==> r is Ok),
{
    match output {
        Err(e) => Err(InstallError::ServerError(e)),
        Ok(s) => {
            if find_error_marker(s.as_str().as_bytes()) {
                Err(InstallError::PackageNotInstalled(s))
            } else {
                Ok(())
            }
        },
    }
}

/// The request that installs the package at `path`, which must exist on this
/// machine: a missing file is `FileNotFound`, and then nothing is sent.
pub fn install_request(exists: bool, path: &str) -> (r: Result<Request, InstallError>)
    requires
        encode_utf8("shell:"@ + ("pm install "@ + path@)).len() <= MAX_COMMAND_LEN,
    ensures
        !exists ==> r matches Err(InstallError::FileNotFound),
        exists ==> (r matches Ok(q) && sends(q, "shell:"@ + ("pm install "@ + path@), shell_frame())),
{
    if !exists {
        return Err(InstallError::FileNotFound);
    }
    let cmd = String::from_str("pm install ").concat(path);
    Ok(Request::shell(cmd.as_str()))
}

/// One attached device as the daemon lists it.
#[derive(Debug)]
pub struct DeviceRecord {
    pub serial_no: String,
    pub model: String,
}

/// The listing that means no device is attached: the text `0000`.
pub open spec fn no_devices(b: Seq<u8>) -> bool {
    b == seq![0x30u8, 0x30u8, 0x30u8, 0x30u8]
}

/// Every line that is not empty has at least two tab-separated fields.
pub open spec fn well_formed_listing(lines: Seq<Seq<u8>>) -> bool {
    forall|i: int|
        0 <= i < lines.len() && #[trigger] lines[i].len() > 0 ==> split_on(lines[i], 0x09).len()
            >= 2
}

/// `v` holds one record per listed line, in order: the first field is the
/// serial number, the second the model.
pub open spec fn records_of(v: Seq<DeviceRecord>, lines: Seq<Seq<u8>>) -> bool {
    &&& v.len() == lines.len()
    &&& forall|k: int|
        0 <= k < v.len() ==> {
            &&& #[trigger] v[k].serial_no@ == decode_utf8(split_on(lines[k], 0x09)[0])
            &&& v[k].model@ == decode_utf8(split_on(lines[k], 0x09)[1])
        }
}

/// What the device listing `text` (with these bytes) gives: `0000` is no
/// device; otherwise one record per line that is not empty, each line
/// `serial<TAB>model`; a line without a tab makes the whole listing an
/// `Unknown` error carrying the text.
pub open spec fn listing_result(
    bytes: Seq<u8>,
    text: Seq<char>,
    r: Result<Vec<DeviceRecord>, PradbErrors>,
) -> bool {
    let lines = split_on(bytes, 0x0A);
    if no_devices(bytes) {
        r matches Ok(v) && v@.len() == 0
    } else if well_formed_listing(lines) {
        r matches Ok(v) && records_of(v@, non_empty(lines))
    } else {
        r matches Err(PradbErrors::Unknown(Some(t))) && t@ == text
    }
}

fn is_no_devices(b: &[u8]) -> (r: bool)
    ensures
        r == no_devices(b@),
{
    if b.len() == 4 && b[0] == 0x30 && b[1] == 0x30 && b[2] == 0x30 && b[3] == 0x30 {
        assert(b@ =~= seq![0x30u8, 0x30u8, 0x30u8, 0x30u8]);
        true
    } else {
        if b.len() == 4 {
            assert(seq![0x30u8, 0x30u8, 0x30u8, 0x30u8][0] == 0x30u8);
        }
        false
    }
}

/// Parses the daemon's device listing.
pub fn parse_devices(text: &str) -> (r: Result<Vec<DeviceRecord>, PradbErrors>)
    ensures
        listing_result(text.spec_bytes(), text@, r),
{
    let b = text.as_bytes();
    proof {
        encode_utf8_valid_utf8(text@);
    }
    let mut out: Vec<DeviceRecord> = Vec::new();
    if is_no_devices(b) {
        return Ok(out);
    }
    let ghost lines = split_on(b@, 0x0A);
    let ranges = split_ranges(b, 0x0A, 0, b.len());
    assert(b@.subrange(0, b@.len() as int) =~= b@);
    let mut k: usize = 0;
    while k < ranges.len()
        invariant
            b@ == text.spec_bytes(),
            valid_utf8(b@),
            !no_devices(b@),
            lines == split_on(b@, 0x0A),
            ranges@.len() == lines.len(),
            forall|j: int|
                0 <= j < ranges@.len() ==> {
                    &&& 0 <= #[trigger] ranges@[j].0 <= ranges@[j].1 <= b@.len()
                    &&& b@.subrange(ranges@[j].0 as int, ranges@[j].1 as int) == lines[j]
                    &&& (ranges@[j].0 == 0 || b@[ranges@[j].0 - 1] == 0x0A)
                    &&& (ranges@[j].1 == b@.len() || b@[ranges@[j].1 as int] == 0x0A)
                },
            k <= ranges@.len(),
            well_formed_listing(lines.subrange(0, k as int)),
            records_of(out@, non_empty(lines.subrange(0, k as int))),
        decreases ranges@.len() - k,
    {
        let (s, e) = ranges[k];
        let ghost before = lines.subrange(0, k as int);
        let ghost after = lines.subrange(0, k + 1);
        assert(after.drop_last() =~= before);
        assert(after.last() == lines[k as int]);
        if s < e {
            let fields = split_ranges(b, 0x09, s, e);
            assert(b@.subrange(s as int, e as int) == lines[k as int]);
            if fields.len() < 2 {
                assert(split_on(lines[k as int], 0x09).len() < 2);
                assert(lines[k as int].len() > 0);
                assert(!well_formed_listing(lines));
                return Err(PradbErrors::Unknown(Some(String::from_str(text))));
            }
            let (s0, e0) = fields[0];
            let (s1, e1) = fields[1];
            let serial_no = piece_to_string(b, s0, e0);
            let model = piece_to_string(b, s1, e1);
            out.push(DeviceRecord { serial_no, model });
            proof {
                let ne = non_empty(after);
                assert(ne == non_empty(before).push(lines[k as int]));
                assert(ne[out@.len() - 1] == lines[k as int]);
                assert(out@[out@.len() - 1].serial_no@ == decode_utf8(split_on(lines[k as int], 0x09)[0]));
                assert(out@[out@.len() - 1].model@ == decode_utf8(split_on(lines[k as int], 0x09)[1]));
                assert forall|j: int| 0 <= j < out@.len() implies {
                    &&& #[trigger] out@[j].serial_no@ == decode_utf8(split_on(ne[j], 0x09)[0])
                    &&& out@[j].model@ == decode_utf8(split_on(ne[j], 0x09)[1])
                } by {
                    if j < out@.len() - 1 {
                        assert(ne[j] == non_empty(before)[j]);
                    }
                }
            }
        } else {
            assert(non_empty(after) == non_empty(before));
        }
        k = k + 1;
        assert(well_formed_listing(lines.subrange(0, k as int))) by {
            assert forall|i: int|
                0 <= i < after.len() && #[trigger] after[i].len() > 0 implies split_on(
                after[i],
                0x09,
            ).len() >= 2 by {
                if i < k - 1 {
                    assert(after[i] == before[i]);
                }
            }
        }
    }
    assert(lines.subrange(0, k as int) =~= lines);
    Ok(out)
}

/// The devices in a reply to `host:devices`: an `Okay` reply is parsed as a
/// listing, `Fail` is `ResponseRelated` with that response, and an unknown
/// token is `Unknown` with the reply's text.
pub fn devices_from_response(resp: Response) -> (r: Result<Vec<DeviceRecord>, PradbErrors>)
    ensures
        resp matches Response::Okay(s) ==> listing_result(encode_utf8(s@), s@, r),
        resp matches Response::Fail(s) ==> (r matches Err(PradbErrors::ResponseRelated(f)) && f
            == Response::Fail(s)),
        resp matches Response::Unknown(s) ==> (r matches Err(PradbErrors::Unknown(t)) && t == Some(
            s,
        )),
{
    match resp {
        Response::Okay(s) => parse_devices(s.as_str()),
        Response::Fail(s) => Err(PradbErrors::ResponseRelated(Response::Fail(s))),
        Response::Unknown(s) => Err(PradbErrors::Unknown(Some(s))),
    }
}

} // verus!
