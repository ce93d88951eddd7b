use vstd::prelude::*;

verus! {

/// What the scheduler reports of a registered job.
#[derive(Debug, Clone)]
pub struct JobInfo {
    pub name: String,
    pub schedule: String,
    pub enabled: bool,
    pub description: String,
}

/// `true` or `false`.
pub open spec fn bool_text(b: bool) -> Seq<char> {
    if b {
        "true"@
    } else {
        "false"@
    }
}

/// The displayed form of a job's description.
pub open spec fn job_info_text(name: Seq<char>, schedule: Seq<char>, enabled: bool, description: Seq<char>) -> Seq<char> {
    "JobInfo { name: "@ + name + ", schedule: "@ + schedule + ", enabled: "@ + bool_text(enabled)
        + ", description: "@ + description + " }"@
}

impl JobInfo {
    /// A description of a job from its four parts.
    pub fn new(name: String, schedule: String, enabled: bool, description: String) -> (r: JobInfo)
        ensures
            r.name == name,
            r.schedule == schedule,
            r.enabled == enabled,
            r.description == description,
    {
        JobInfo { name, schedule, enabled, description }
    }

    /// The displayed form: `JobInfo { name: .., schedule: .., enabled: .., description: .. }`.
    pub fn to_string(&self) -> (r: String)
        ensures
            r@ == job_info_text(self.name@, self.schedule@, self.enabled, self.description@),
    {
        let mut s = String::from_str("JobInfo { name: ");
        s.append(self.name.as_str());
        s.append(", schedule: ");
        s.append(self.schedule.as_str());
        s.append(", enabled: ");
        if self.enabled {
            s.append("true");
        } else {
            s.append("false");
        }
        s.append(", description: ");
        s.append(self.description.as_str());
        s.append(" }");
        s
    }
}

} // verus!
