//! The process-wide settings snapshot tools consume, and the rule for the
//! root directory. Persistence is the surrounding runtime's concern; it
//! hands the values over as plain strings.

use vstd::prelude::*;
use vstd::string::{StrSliceExecFns, StringExecFns};

use crate::error::Error;

verus! {

/// The settings a conversation runs under.
#[derive(Debug)]
pub struct Settings {
    pub api_key: String,
    pub model_name: String,
    pub root_dir: String,
    pub soffice_path: String,
    pub provider_order: String,
}

impl Default for Settings {
    /// The out-of-the-box settings: empty key and paths, the default model
    /// and provider order.
    fn default() -> (r: Settings)
        ensures
            r.api_key@ == Seq::<char>::empty(),
            r.model_name@ == "google/gemini-2.5-pro"@,
            r.root_dir@ == Seq::<char>::empty(),
            r.soffice_path@ == Seq::<char>::empty(),
            r.provider_order@ == "google-vertex"@,
    {
        Settings {
            api_key: String::new(),
            model_name: String::from_str("google/gemini-2.5-pro"),
            root_dir: String::new(),
            soffice_path: String::new(),
            provider_order: String::from_str("google-vertex"),
        }
    }
}

impl Settings {
    /// The configured root directory; an unset one is refused, so no tool
    /// ever walks an empty path.
    pub fn get_root(&self) -> (r: Result<String, Error>)
        ensures
            self.root_dir@.len() == 0 <==> (r matches Err(e) && e is Other),
            self.root_dir@.len() > 0 <==> (r matches Ok(root) && root@ == self.root_dir@),
    {
        if self.root_dir.as_str().unicode_len() == 0 {
            Err(Error::Other)
        } else {
            let root = self.root_dir.clone();
            Ok(root)
        }
    }
}

/// Splits a comma-separated provider order into its entries, as the request
/// body carries them.
pub open spec fn split_commas(s: Seq<char>) -> Seq<Seq<char>>
    decreases s.len(),
{
    if s.len() == 0 {
        seq![Seq::<char>::empty()]
    } else if s.last() == ',' {
        split_commas(s.drop_last()).push(Seq::empty())
    } else {
        let prev = split_commas(s.drop_last());
        prev.update(prev.len() - 1, prev.last().push(s.last()))
    }
}

/// The provider order as a list: the configured string split at commas.
pub fn provider_order_list(s: &str) -> (r: Vec<String>)
    ensures
        r.deep_view() == split_commas(s@),
{
    let n = s.unicode_len();
    let mut out: Vec<String> = vec![String::new()];
    let mut i: usize = 0;
    proof {
        assert(out.deep_view() =~= split_commas(s@.take(0)));
    }
    while i < n
        invariant
            0 <= i <= n,
            n == s@.len(),
            out.deep_view() == split_commas(s@.take(i as int)),
            out@.len() > 0,
        decreases n - i,
    {
        let ghost before = out.deep_view();
        let c = s.get_char(i);
        if c == ',' {
            out.push(String::new());
            proof {
                assert(out.deep_view() =~= before.push(Seq::<char>::empty()));
            }
        } else {
            let last_idx = out.len() - 1;
            let mut last = out.remove(last_idx);
            crate::textfmt::push_char(&mut last, c);
            out.push(last);
            proof {
                assert(out.deep_view() =~= before.update(
                    before.len() - 1,
                    before.last().push(c),
                ));
            }
        }
        proof {
            let t1 = s@.take(i as int + 1);
            assert(t1.drop_last() =~= s@.take(i as int));
            assert(t1.last() == s@[i as int]);
        }
        i = i + 1;
    }
    proof {
        assert(s@.take(s@.len() as int) =~= s@);
    }
    out
}

} // verus!
