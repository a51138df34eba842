//! The server's model listing and connectivity test answers.  Reading the
//! configuration and calling the provider are the caller's part.

use vstd::prelude::*;
use crate::text::{decimal, push_str, to_string, u64_to_decimal};

verus! {

/// A configured provider profile and the models it offers.
pub struct ModelProfile {
    pub name: String,
    pub provider_kind: String,
    pub model_ids: Vec<String>,
}

/// A model a client may pick.
pub struct AvailableModel {
    pub profile_name: String,
    pub model_id: String,
    pub provider_kind: String,
}

/// The (profile, model, provider kind) of every model of every profile,
/// profile by profile, in order.
pub open spec fn listed_models(profiles: Seq<ModelProfile>) -> Seq<(Seq<char>, Seq<char>, Seq<char>)>
    decreases profiles.len(),
{
    if profiles.len() == 0 {
        seq![]
    } else {
        let p = profiles.last();
        listed_models(profiles.drop_last()) + p.model_ids@.map_values(
            |m: String| (p.name@, m@, p.provider_kind@),
        )
    }
}

/// The models as text triples.
pub open spec fn model_views(models: Seq<AvailableModel>) -> Seq<(Seq<char>, Seq<char>, Seq<char>)> {
    models.map_values(|m: AvailableModel| (m.profile_name@, m.model_id@, m.provider_kind@))
}

/// Lists every model of every profile, profile by profile.
pub fn available_models(profiles: &[ModelProfile]) -> (r: Vec<AvailableModel>)
    ensures
        model_views(r@) == listed_models(profiles@),
{
    let mut out: Vec<AvailableModel> = Vec::new();
    let mut i: usize = 0;
    while i < profiles.len()
        invariant
            0 <= i <= profiles@.len(),
            model_views(out@) == listed_models(profiles@.take(i as int)),
        decreases profiles@.len() - i,
    {
        let p = &profiles[i];
        let ghost base = model_views(out@);
        let ghost all = p.model_ids@.map_values(|m: String| (p.name@, m@, p.provider_kind@));
        let mut k: usize = 0;
        proof {
            assert(base + all.take(0) =~= base);
        }
        while k < p.model_ids.len()
            invariant
                0 <= k <= p.model_ids@.len(),
                all == p.model_ids@.map_values(|m: String| (p.name@, m@, p.provider_kind@)),
                model_views(out@) == base + all.take(k as int),
            decreases p.model_ids@.len() - k,
        {
            let ghost before = model_views(out@);
            out.push(
                AvailableModel {
                    profile_name: to_string(p.name.as_str()),
                    model_id: to_string(p.model_ids[k].as_str()),
                    provider_kind: to_string(p.provider_kind.as_str()),
                },
            );
            proof {
                assert(model_views(out@) =~= before.push(all[k as int]));
                assert(all.take(k + 1) =~= all.take(k as int).push(all[k as int]));
            }
            k = k + 1;
        }
        proof {
            assert(all.take(p.model_ids@.len() as int) =~= all);
            assert(profiles@.take(i + 1).drop_last() =~= profiles@.take(i as int));
            assert(profiles@.take(i + 1).last() == profiles@[i as int]);
        }
        i = i + 1;
    }
    proof {
        assert(profiles@.take(profiles@.len() as int) =~= profiles@);
    }
    out
}

/// The answer of a model connectivity test.
pub struct ModelTestResult {
    pub success: bool,
    pub message: String,
}

/// The answer of a connectivity test: success with the round trip's
/// duration, or failure with the provider's error.
pub fn model_test_result(outcome: Result<u64, String>) -> (r: ModelTestResult)
    ensures
        match outcome {
            Ok(ms) => r.success && r.message@ == "ok ("@ + decimal(ms as nat) + "ms)"@,
            Err(e) => !r.success && r.message == e,
        },
{
    match outcome {
        Ok(ms) => {
            let mut m = to_string("ok (");
            push_str(&mut m, u64_to_decimal(ms).as_str());
            push_str(&mut m, "ms)");
            ModelTestResult { success: true, message: m }
        },
        Err(e) => ModelTestResult { success: false, message: e },
    }
}

} // verus!
