//! The policy configuration: which scheduling, admission, abort and
//! estimation policies are enabled, and the rules on combining them.
use vstd::prelude::*;

verus! {

/// The enabled policies.
#[derive(Debug, Clone, Copy, PartialEq, Eq, Default, Structural)]
pub struct Features {
    pub sched_fifo: bool,
    pub sched_slo: bool,
    pub sched_tailclipper: bool,
    pub sched_pred: bool,
    pub sched_oracle: bool,
    pub abort_slo: bool,
    pub abort_slack: bool,
    pub signal_slack: bool,
    pub ac_rajomon: bool,
    pub ac_pred: bool,
    pub estimator: bool,
    pub est_rms: bool,
    pub est_hist: bool,
    pub est_mean_var: bool,
    pub deadline_equals_slack: bool,
}

/// Whether `f` keeps every rule on combining policies: at most one
/// scheduling policy, TailClipper without predictive scheduling, at most one
/// admission strategy and one abort strategy, the soft deadline signal
/// neither with slack aborts nor without predictive admission, admission
/// control only with a scheduling policy, at most one estimator kind, and
/// the estimator enabled wherever a policy needs estimates.
pub open spec fn valid_combination(f: Features) -> bool {
    &&& !(f.sched_fifo && f.sched_slo)
    &&& !(f.sched_fifo && f.sched_tailclipper)
    &&& !(f.sched_slo && f.sched_tailclipper)
    &&& !(f.sched_tailclipper && f.sched_pred)
    &&& !(f.ac_pred && f.ac_rajomon)
    &&& !(f.abort_slack && f.abort_slo)
    &&& !(f.signal_slack && f.abort_slack)
    &&& f.signal_slack ==> f.ac_pred
    &&& (f.ac_pred || f.ac_rajomon) ==> (f.sched_fifo || f.sched_slo || f.sched_tailclipper)
    &&& !(f.est_rms && f.est_hist)
    &&& !(f.est_rms && f.est_mean_var)
    &&& !(f.est_hist && f.est_mean_var)
    &&& (f.sched_pred || f.ac_pred || f.abort_slack || f.signal_slack || f.est_rms || f.est_hist || f.est_mean_var)
        ==> f.estimator
}

/// The first rule that `f` breaks, if any, as its message.
pub open spec fn first_violation(f: Features) -> Option<&'static str> {
    if f.sched_fifo && f.sched_slo {
        Some(SCHED_EXCLUSIVE)
    } else if f.sched_fifo && f.sched_tailclipper {
        Some(SCHED_EXCLUSIVE)
    } else if f.sched_slo && f.sched_tailclipper {
        Some(SCHED_SLO_TAILCLIPPER)
    } else if f.sched_tailclipper && f.sched_pred {
        Some(TAILCLIPPER_PRED)
    } else if f.ac_pred && f.ac_rajomon {
        Some(AC_EXCLUSIVE)
    } else if f.abort_slack && f.abort_slo {
        Some(ABORT_EXCLUSIVE)
    } else if f.abort_slack && !f.estimator {
        Some(ABORT_SLACK_NEEDS_ESTIMATOR)
    } else if f.signal_slack && f.abort_slack {
        Some(SIGNAL_ABORT_EXCLUSIVE)
    } else if f.signal_slack && !f.estimator {
        Some(SIGNAL_SLACK_NEEDS_ESTIMATOR)
    } else if f.signal_slack && !f.ac_pred {
        Some(SIGNAL_SLACK_NEEDS_AC_PRED)
    } else if f.sched_pred && !f.estimator {
        Some(SCHED_PRED_NEEDS_ESTIMATOR)
    } else if f.ac_pred && !f.estimator {
        Some(AC_PRED_NEEDS_ESTIMATOR)
    } else if (f.ac_pred || f.ac_rajomon) && !(f.sched_fifo || f.sched_slo || f.sched_tailclipper) {
        Some(AC_NEEDS_SCHED)
    } else if f.est_rms && f.est_hist {
        Some(EST_RMS_HIST)
    } else if f.est_rms && f.est_mean_var {
        Some(EST_RMS_MEAN_VAR)
    } else if f.est_hist && f.est_mean_var {
        Some(EST_HIST_MEAN_VAR)
    } else if (f.est_rms || f.est_hist || f.est_mean_var) && !f.estimator {
        Some(EST_NEEDS_ESTIMATOR)
    } else {
        None
    }
}

pub const SCHED_EXCLUSIVE: &'static str = "Enable at most one scheduling policy: sched_fifo | sched_slo | sched_tailclipper";
pub const SCHED_SLO_TAILCLIPPER: &'static str = "Enable at most one scheduling policy: sched_slo | sched_tailclipper";
pub const TAILCLIPPER_PRED: &'static str = "'sched_tailclipper' cannot be combined with 'sched_pred': sched_tailclipper implements the TailClipper paper's policy as-is";
pub const AC_EXCLUSIVE: &'static str = "Enable at most one admission control strategy: ac_pred | ac_rajomon";
pub const ABORT_EXCLUSIVE: &'static str = "Enable at most one abort strategy: abort_slo | abort_slack";
pub const ABORT_SLACK_NEEDS_ESTIMATOR: &'static str = "'abort_slack' requires 'estimator' for predictive abort checks";
pub const SIGNAL_ABORT_EXCLUSIVE: &'static str = "'signal_slack' is mutually exclusive with 'abort_slack': same trigger condition, opposite actions";
pub const SIGNAL_SLACK_NEEDS_ESTIMATOR: &'static str = "'signal_slack' requires 'estimator' for predictive deadline checks";
pub const SIGNAL_SLACK_NEEDS_AC_PRED: &'static str = "'signal_slack' requires 'ac_pred' - without it there is no consumer for the signal";
pub const SCHED_PRED_NEEDS_ESTIMATOR: &'static str = "'sched_pred' requires 'estimator'";
pub const AC_PRED_NEEDS_ESTIMATOR: &'static str = "'ac_pred' requires 'estimator'";
pub const AC_NEEDS_SCHED: &'static str = "Admission control (ac_pred | ac_rajomon) requires a scheduling policy (sched_fifo | sched_slo | sched_tailclipper)";
pub const EST_RMS_HIST: &'static str = "Features 'est_rms' and 'est_hist' cannot be enabled simultaneously";
pub const EST_RMS_MEAN_VAR: &'static str = "Features 'est_rms' and 'est_mean_var' cannot be enabled simultaneously";
pub const EST_HIST_MEAN_VAR: &'static str = "Features 'est_hist' and 'est_mean_var' cannot be enabled simultaneously";
pub const EST_NEEDS_ESTIMATOR: &'static str = "Features 'est_rms', 'est_hist', or 'est_mean_var' require the 'estimator' feature to be enabled";

impl Features {
    /// Checks the rules on combining policies; the error is the message of
    /// the first rule broken.
    pub fn validate(&self) -> (r: Result<(), &'static str>)
        ensures
            match first_violation(*self) {
                Some(m) => r == Err::<(), &'static str>(m),
                None => r is Ok,
            },
            self.sched_fifo && (self.sched_slo || self.sched_tailclipper) ==> r == Err::<(), &'static str>(
                SCHED_EXCLUSIVE,
            ),
            !self.sched_fifo && self.sched_slo && self.sched_tailclipper ==> r == Err::<(), &'static str>(
                SCHED_SLO_TAILCLIPPER,
            ),
            r is Ok ==> valid_combination(*self),
    {
        let f = *self;
        if f.sched_fifo && f.sched_slo {
            Err(SCHED_EXCLUSIVE)
        } else if f.sched_fifo && f.sched_tailclipper {
            Err(SCHED_EXCLUSIVE)
        } else if f.sched_slo && f.sched_tailclipper {
            Err(SCHED_SLO_TAILCLIPPER)
        } else if f.sched_tailclipper && f.sched_pred {
            Err(TAILCLIPPER_PRED)
        } else if f.ac_pred && f.ac_rajomon {
            Err(AC_EXCLUSIVE)
        } else if f.abort_slack && f.abort_slo {
            Err(ABORT_EXCLUSIVE)
        } else if f.abort_slack && !f.estimator {
            Err(ABORT_SLACK_NEEDS_ESTIMATOR)
        } else if f.signal_slack && f.abort_slack {
            Err(SIGNAL_ABORT_EXCLUSIVE)
        } else if f.signal_slack && !f.estimator {
            Err(SIGNAL_SLACK_NEEDS_ESTIMATOR)
        } else if f.signal_slack && !f.ac_pred {
            Err(SIGNAL_SLACK_NEEDS_AC_PRED)
        } else if f.sched_pred && !f.estimator {
            Err(SCHED_PRED_NEEDS_ESTIMATOR)
        } else if f.ac_pred && !f.estimator {
            Err(AC_PRED_NEEDS_ESTIMATOR)
        } else if (f.ac_pred || f.ac_rajomon) && !(f.sched_fifo || f.sched_slo || f.sched_tailclipper) {
            Err(AC_NEEDS_SCHED)
        } else if f.est_rms && f.est_hist {
            Err(EST_RMS_HIST)
        } else if f.est_rms && f.est_mean_var {
            Err(EST_RMS_MEAN_VAR)
        } else if f.est_hist && f.est_mean_var {
            Err(EST_HIST_MEAN_VAR)
        } else if (f.est_rms || f.est_hist || f.est_mean_var) && !f.estimator {
            Err(EST_NEEDS_ESTIMATOR)
        } else {
            Ok(())
        }
    }
}

/// Law: a valid configuration enables at most one admission strategy and
/// at most one abort strategy.
pub proof fn law_valid_features_are_exclusive(f: Features)
    requires
        first_violation(f) is None,
    ensures
        !(f.ac_pred && f.ac_rajomon),
        !(f.abort_slack && f.abort_slo),
        !(f.signal_slack && f.abort_slack),
        (f.sched_pred || f.ac_pred || f.abort_slack || f.signal_slack) ==> f.estimator,
{
}

/// Law: a configuration is valid exactly when it keeps every rule on
/// combining policies; in particular it enables at most one scheduling
/// policy, and two scheduling policies are refused with the message that
/// names the exclusive scheduling policies.
pub proof fn law_valid_features_enable_one_scheduler(f: Features)
    ensures
        (first_violation(f) is None) <==> valid_combination(f),
        first_violation(f) is None ==> !(f.sched_fifo && f.sched_slo) && !(f.sched_fifo && f.sched_tailclipper)
            && !(f.sched_slo && f.sched_tailclipper),
        f.sched_fifo && (f.sched_slo || f.sched_tailclipper) ==> first_violation(f) == Some(SCHED_EXCLUSIVE),
        !f.sched_fifo && f.sched_slo && f.sched_tailclipper ==> first_violation(f) == Some(SCHED_SLO_TAILCLIPPER),
{
}

} // verus!
