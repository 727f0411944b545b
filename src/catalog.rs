//! Building the catalog from the files of the descriptor directory.
use vstd::prelude::*;
use vstd::string::to_string_from_display_ensures;
use crate::entry::{app_of, parse_descriptor, parsed_attrs, AppInfo, AppModel};

verus! {

/// The file-name suffix of a descriptor: `.desktop`.
pub open spec fn descriptor_suffix() -> Seq<u8> {
    seq![46u8, 100u8, 101u8, 115u8, 107u8, 116u8, 111u8, 112u8]
}

/// A file name whose extension is `desktop`: it ends in `.desktop` and has at
/// least one byte before that dot (a name that is only `.desktop` has no
/// extension).
pub open spec fn is_descriptor_name(name: Seq<u8>) -> bool {
    name.len() > descriptor_suffix().len() && name.subrange(
        name.len() - descriptor_suffix().len(),
        name.len() as int,
    ) == descriptor_suffix()
}

/// A directory entry that is a file: its name and its contents.
pub struct DescriptorFile {
    pub file_name: Vec<u8>,
    pub contents: Vec<u8>,
}

impl View for DescriptorFile {
    type V = (Seq<u8>, Seq<u8>);

    open spec fn view(&self) -> (Seq<u8>, Seq<u8>) {
        (self.file_name@, self.contents@)
    }
}

/// The application one file contributes to the catalog, if any.
pub open spec fn app_of_file(file: (Seq<u8>, Seq<u8>)) -> Option<AppModel> {
    if is_descriptor_name(file.0) {
        match parsed_attrs(file.1) {
            Some(attrs) => app_of(attrs),
            None => None,
        }
    } else {
        None
    }
}

/// The catalog of a directory listing: the applications of its files, in
/// listing order.
pub open spec fn catalog_of(files: Seq<(Seq<u8>, Seq<u8>)>) -> Seq<AppModel>
    decreases files.len(),
{
    if files.len() == 0 {
        seq![]
    } else {
        let rest = catalog_of(files.drop_last());
        match app_of_file(files.last()) {
            Some(app) => rest.push(app),
            None => rest,
        }
    }
}

/// The names of the descriptor files of a listing that fail to parse, in
/// listing order.
pub open spec fn failures_of(files: Seq<(Seq<u8>, Seq<u8>)>) -> Seq<Seq<u8>>
    decreases files.len(),
{
    if files.len() == 0 {
        seq![]
    } else {
        let rest = failures_of(files.drop_last());
        if is_descriptor_name(files.last().0) && parsed_attrs(files.last().1) is None {
            rest.push(files.last().0)
        } else {
            rest
        }
    }
}

/// A descriptor file that could not be parsed: the parser's error and its
/// text.
pub struct ParseFailure {
    pub file_name: Vec<u8>,
    pub error: freedesktop_entry_parser::ParseError,
    pub message: String,
}

impl ParseFailure {
    /// The message is the text the parser gives for its error.
    pub open spec fn reports_error(&self) -> bool {
        to_string_from_display_ensures::<freedesktop_entry_parser::ParseError>(
            &self.error,
            self.message,
        )
    }
}

/// The outcome of loading a directory: the catalog and a diagnostic for each
/// descriptor file that did not parse.
pub struct LoadReport {
    pub apps: Vec<AppInfo>,
    pub failures: Vec<ParseFailure>,
}

/// The views of a sequence of applications.
pub open spec fn models(apps: Seq<AppInfo>) -> Seq<AppModel> {
    apps.map_values(|a: AppInfo| a@)
}

/// The views of a listing.
pub open spec fn listing(files: Seq<DescriptorFile>) -> Seq<(Seq<u8>, Seq<u8>)> {
    files.map_values(|f: DescriptorFile| f@)
}

/// Whether a file name has the descriptor extension.
pub fn is_descriptor_file_name(name: &[u8]) -> (r: bool)
    ensures
        r == is_descriptor_name(name@),
{
    let n = name.len();
    if n <= 8 {
        return false;
    }
    let suffix: [u8; 8] = [46u8, 100u8, 101u8, 115u8, 107u8, 116u8, 111u8, 112u8];
    let start = n - 8;
    let mut i: usize = 0;
    while i < 8
        invariant
            n == name@.len(),
            start == n - 8,
            i <= 8,
            suffix@ == descriptor_suffix(),
            forall|k: int| 0 <= k < i ==> name@[start + k] == descriptor_suffix()[k],
        decreases 8 - i,
    {
        if name[start + i] != suffix[i] {
            assert(name@.subrange(start as int, n as int)[i as int] != descriptor_suffix()[i as int]);
            return false;
        }
        i = i + 1;
    }
    assert(name@.subrange(start as int, n as int) =~= descriptor_suffix());
    true
}

/// Every application of a catalog has a name and a command.
pub proof fn lemma_catalog_well_formed(files: Seq<(Seq<u8>, Seq<u8>)>)
    ensures
        forall|i: int| 0 <= i < catalog_of(files).len() ==> #[trigger] catalog_of(files)[i].well_formed(),
    decreases files.len(),
{
    if files.len() > 0 {
        lemma_catalog_well_formed(files.drop_last());
        let rest = catalog_of(files.drop_last());
        match app_of_file(files.last()) {
            Some(app) => {
                assert(app.well_formed());
                assert forall|i: int| 0 <= i < catalog_of(files).len() implies #[trigger] catalog_of(
                    files,
                )[i].well_formed() by {
                    if i < rest.len() {
                        assert(catalog_of(files)[i] == rest[i]);
                    }
                }
            },
            None => {},
        }
    }
}

/// Loads the catalog from the files of the descriptor directory, in listing
/// order. Files whose name lacks the descriptor extension are skipped; a
/// descriptor that does not parse is skipped and reported; one without a name
/// or a command is skipped.
pub fn load_catalog(files: &Vec<DescriptorFile>) -> (r: LoadReport)
    ensures
        models(r.apps@) == catalog_of(listing(files@)),
        r.failures@.map_values(|f: ParseFailure| f.file_name@) == failures_of(listing(files@)),
        forall|i: int| 0 <= i < r.apps@.len() ==> #[trigger] r.apps@[i]@.well_formed(),
        forall|i: int| 0 <= i < r.failures@.len() ==> #[trigger] r.failures@[i].reports_error(),
{
    let mut apps: Vec<AppInfo> = Vec::new();
    let mut failures: Vec<ParseFailure> = Vec::new();
    let mut i: usize = 0;
    while i < files.len()
        invariant
            i <= files@.len(),
            models(apps@) == catalog_of(listing(files@).subrange(0, i as int)),
            failures@.map_values(|f: ParseFailure| f.file_name@) == failures_of(
                listing(files@).subrange(0, i as int),
            ),
            forall|k: int| 0 <= k < failures@.len() ==> #[trigger] failures@[k].reports_error(),
        decreases files@.len() - i,
    {
        let file = &files[i];
        let ghost before = listing(files@).subrange(0, i as int);
        let ghost after = listing(files@).subrange(0, i + 1);
        assert(after.drop_last() =~= before);
        assert(after.last() == file@);
        if is_descriptor_file_name(file.file_name.as_slice()) {
            match parse_descriptor(file.contents.as_slice()) {
                Ok(e) => {
                    match AppInfo::from_entry(&e) {
                        Some(app) => {
                            apps.push(app);
                            assert(models(apps@) =~= catalog_of(before).push(app@));
                        },
                        None => {},
                    }
                },
                Err(err) => {
                    let message = err.to_string();
                    failures.push(ParseFailure { file_name: file.file_name.clone(), error: err, message });
                    assert(failures@.map_values(|f: ParseFailure| f.file_name@) =~= failures_of(before).push(file.file_name@));
                },
            }
        }
        i = i + 1;
    }
    assert(listing(files@).subrange(0, files@.len() as int) =~= listing(files@));
    proof {
        lemma_catalog_well_formed(listing(files@));
        assert forall|i: int| 0 <= i < apps@.len() implies #[trigger] apps@[i]@.well_formed() by {
            assert(models(apps@)[i] == apps@[i]@);
        }
    }
    LoadReport { apps, failures }
}

} // verus!
