//! Survey hub content: which sections apply to a property and which
//! questions a section asks.
//!
//! The catalog is fixed; the one rule in it is applicability: the
//! interior and elevator sections exist only for properties that are not
//! bare land, and the hub returns applicable sections only.

use vstd::prelude::*;

use crate::models::{HubStatus, SurveyQuestion, SurveySection};

verus! {

/// The property type without interior spaces or elevators.
pub open spec fn bare_land() -> Seq<char> {
    "Bare Land"@
}

/// One catalog entry of the hub, at specification level.
#[verifier::ext_equal]
pub struct SectionSpec {
    pub id: Seq<char>,
    pub title: Seq<char>,
    pub description: Seq<char>,
    pub icon: Seq<char>,
    pub progress: u8,
    pub tags: Seq<Seq<char>>,
    pub href: Option<Seq<char>>,
    pub grid_class: Option<Seq<char>>,
}

/// A returned section renders a catalog entry exactly, and is applicable.
pub open spec fn section_matches(s: SurveySection, c: SectionSpec) -> bool {
    &&& s.id@ == c.id
    &&& s.title@ == c.title
    &&& s.description@ == c.description
    &&& s.icon@ == c.icon
    &&& s.progress == c.progress
    &&& s.tags@.len() == c.tags.len()
    &&& forall|t: int| 0 <= t < c.tags.len() ==> (#[trigger] s.tags@[t])@ == c.tags[t]
    &&& (s.href is Some <==> c.href is Some)
    &&& (s.href is Some ==> s.href->0@ == c.href->0)
    &&& (s.grid_class is Some <==> c.grid_class is Some)
    &&& (s.grid_class is Some ==> s.grid_class->0@ == c.grid_class->0)
    &&& s.is_applicable
}

pub open spec fn sec_docs() -> SectionSpec {
    SectionSpec {
        id: "docs"@,
        title: "Mandatory Documents"@,
        description: "Upload Strata Plan, AGM Minutes, and Financial Statements."@,
        icon: "FileText"@,
        progress: 45,
        tags: seq!["Critical"@, "Documents"@],
        href: Some("/client/documents"@),
        grid_class: Some("md:col-span-2"@),
    }
}

pub open spec fn sec_exterior() -> SectionSpec {
    SectionSpec {
        id: "exterior"@,
        title: "Building Exterior"@,
        description: "Roofing, siding, windows, and exterior envelope details."@,
        icon: "Home"@,
        progress: 0,
        tags: seq!["Survey"@],
        href: None,
        grid_class: None,
    }
}

pub open spec fn sec_interior() -> SectionSpec {
    SectionSpec {
        id: "interior"@,
        title: "Interior & Common"@,
        description: "Review of common hallways, lobbies, and shared spaces."@,
        icon: "Home"@,
        progress: 0,
        tags: seq!["Interior"@],
        href: None,
        grid_class: None,
    }
}

pub open spec fn sec_clubhouse() -> SectionSpec {
    SectionSpec {
        id: "clubhouse"@,
        title: "Clubhouse assessment"@,
        description: "Detailed report on clubhouse envelope and mechanicals."@,
        icon: "Home"@,
        progress: 0,
        tags: seq!["Technical"@],
        href: None,
        grid_class: None,
    }
}

pub open spec fn sec_amenities() -> SectionSpec {
    SectionSpec {
        id: "amenities"@,
        title: "Amenities Checklist"@,
        description: "Scope of shared facilities (Pools, Gyms, etc)."@,
        icon: "Users"@,
        progress: 0,
        tags: seq!["Scope"@],
        href: None,
        grid_class: None,
    }
}

pub open spec fn sec_legal() -> SectionSpec {
    SectionSpec {
        id: "legal"@,
        title: "Legal Issues"@,
        description: "CRT claims and lawsuits disclosure."@,
        icon: "ShieldCheck"@,
        progress: 0,
        tags: seq!["Risk"@],
        href: None,
        grid_class: None,
    }
}

pub open spec fn sec_council() -> SectionSpec {
    SectionSpec {
        id: "council"@,
        title: "Council Concerns"@,
        description: "Direct feedback from the Strata Council."@,
        icon: "ClipboardCheck"@,
        progress: 0,
        tags: seq!["Feedback"@],
        href: None,
        grid_class: None,
    }
}

pub open spec fn sec_elevator() -> SectionSpec {
    SectionSpec {
        id: "elevator"@,
        title: "Elevator & Lift"@,
        description: "Safety inspections and maintenance records for all vertical transport."@,
        icon: "ShieldCheck"@,
        progress: 0,
        tags: seq!["Survey"@, "Technical"@],
        href: None,
        grid_class: None,
    }
}

pub open spec fn sec_services() -> SectionSpec {
    SectionSpec {
        id: "services"@,
        title: "Mechanical Services"@,
        description: "HVAC, plumbing, electrical systems, and shared utilities."@,
        icon: "Wrench"@,
        progress: 12,
        tags: seq!["Survey"@],
        href: None,
        grid_class: None,
    }
}

pub open spec fn sec_amenities_features() -> SectionSpec {
    SectionSpec {
        id: "amenities_features"@,
        title: "Amenities & Clubhouse"@,
        description: "Shared facilities including pools, gyms, and community spaces."@,
        icon: "Tree"@,
        progress: 0,
        tags: seq!["Survey"@],
        href: None,
        grid_class: None,
    }
}

pub open spec fn sec_contacts() -> SectionSpec {
    SectionSpec {
        id: "contacts"@,
        title: "Contact Management"@,
        description: "Confirm site contacts and property management details."@,
        icon: "Users"@,
        progress: 80,
        tags: seq!["Setup"@],
        href: Some("/client/profile"@),
        grid_class: None,
    }
}

pub open spec fn sec_inspection() -> SectionSpec {
    SectionSpec {
        id: "inspection"@,
        title: "Inspection Date"@,
        description: "Schedule the site visit after documents are reviewed."@,
        icon: "ClipboardCheck"@,
        progress: 0,
        tags: seq!["Locked"@],
        href: Some("/client/inspection"@),
        grid_class: Some("md:col-span-full bg-gray-50/50 grayscale opacity-60"@),
    }
}

/// The applicable sections of the hub, in catalog order: the interior
/// and elevator sections exist exactly when the property is not bare
/// land.
pub open spec fn hub_catalog(bare: bool) -> Seq<SectionSpec> {
    if bare {
        seq![
            sec_docs(),
            sec_exterior(),
            sec_clubhouse(),
            sec_amenities(),
            sec_legal(),
            sec_council(),
            sec_services(),
            sec_amenities_features(),
            sec_contacts(),
            sec_inspection(),
        ]
    } else {
        seq![
            sec_docs(),
            sec_exterior(),
            sec_interior(),
            sec_clubhouse(),
            sec_amenities(),
            sec_legal(),
            sec_council(),
            sec_elevator(),
            sec_services(),
            sec_amenities_features(),
            sec_contacts(),
            sec_inspection(),
        ]
    }
}

fn section(
    id: &str,
    title: &str,
    description: &str,
    icon: &str,
    progress: u8,
    tags: Vec<String>,
    href: Option<String>,
    grid_class: Option<String>,
) -> (s: SurveySection)
    ensures
        s.id@ == id@,
        s.title@ == title@,
        s.description@ == description@,
        s.icon@ == icon@,
        s.progress == progress,
        s.tags == tags,
        s.href == href,
        s.grid_class == grid_class,
        s.is_applicable,
{
    SurveySection {
        id: String::from_str(id),
        title: String::from_str(title),
        description: String::from_str(description),
        icon: String::from_str(icon),
        progress,
        tags,
        is_applicable: true,
        href,
        grid_class,
    }
}

fn tag_list_1(a: &str) -> (r: Vec<String>)
    ensures
        r@.len() == 1,
        r@[0]@ == a@,
{
    let mut r: Vec<String> = Vec::new();
    r.push(String::from_str(a));
    r
}

fn tag_list_2(a: &str, b: &str) -> (r: Vec<String>)
    ensures
        r@.len() == 2,
        r@[0]@ == a@,
        r@[1]@ == b@,
{
    let mut r: Vec<String> = Vec::new();
    r.push(String::from_str(a));
    r.push(String::from_str(b));
    r
}

/// The hub's sections for a property type: the fixed catalog rendered
/// exactly, the interior and elevator sections present exactly when the
/// property is not bare land, every returned section applicable, and the
/// overall progress fixed at 33.
pub fn get_hub_status(property_type: &str) -> (r: HubStatus)
    ensures
        r.overall_progress == 33,
        r.sections@.len() == hub_catalog(property_type@ == bare_land()).len(),
        forall|k: int|
            0 <= k < r.sections@.len() ==> section_matches(
                #[trigger] r.sections@[k],
                hub_catalog(property_type@ == bare_land())[k],
            ),
{
    let bare = String::from_str(property_type) == String::from_str("Bare Land");
    let mut sections: Vec<SurveySection> = Vec::new();
    sections.push(
        section(
            "docs",
            "Mandatory Documents",
            "Upload Strata Plan, AGM Minutes, and Financial Statements.",
            "FileText",
            45,
            tag_list_2("Critical", "Documents"),
            Some(String::from_str("/client/documents")),
            Some(String::from_str("md:col-span-2")),
        ),
    );
    sections.push(
        section(
            "exterior",
            "Building Exterior",
            "Roofing, siding, windows, and exterior envelope details.",
            "Home",
            0,
            tag_list_1("Survey"),
            None,
            None,
        ),
    );
    if !bare {
        sections.push(
            section(
                "interior",
                "Interior & Common",
                "Review of common hallways, lobbies, and shared spaces.",
                "Home",
                0,
                tag_list_1("Interior"),
                None,
                None,
            ),
        );
    }
    sections.push(
        section(
            "clubhouse",
            "Clubhouse assessment",
            "Detailed report on clubhouse envelope and mechanicals.",
            "Home",
            0,
            tag_list_1("Technical"),
            None,
            None,
        ),
    );
    sections.push(
        section(
            "amenities",
            "Amenities Checklist",
            "Scope of shared facilities (Pools, Gyms, etc).",
            "Users",
            0,
            tag_list_1("Scope"),
            None,
            None,
        ),
    );
    sections.push(
        section(
            "legal",
            "Legal Issues",
            "CRT claims and lawsuits disclosure.",
            "ShieldCheck",
            0,
            tag_list_1("Risk"),
            None,
            None,
        ),
    );
    sections.push(
        section(
            "council",
            "Council Concerns",
            "Direct feedback from the Strata Council.",
            "ClipboardCheck",
            0,
            tag_list_1("Feedback"),
            None,
            None,
        ),
    );
    if !bare {
        sections.push(
            section(
                "elevator",
                "Elevator & Lift",
                "Safety inspections and maintenance records for all vertical transport.",
                "ShieldCheck",
                0,
                tag_list_2("Survey", "Technical"),
                None,
                None,
            ),
        );
    }
    sections.push(
        section(
            "services",
            "Mechanical Services",
            "HVAC, plumbing, electrical systems, and shared utilities.",
            "Wrench",
            12,
            tag_list_1("Survey"),
            None,
            None,
        ),
    );
    sections.push(
        section(
            "amenities_features",
            "Amenities & Clubhouse",
            "Shared facilities including pools, gyms, and community spaces.",
            "Tree",
            0,
            tag_list_1("Survey"),
            None,
            None,
        ),
    );
    sections.push(
        section(
            "contacts",
            "Contact Management",
            "Confirm site contacts and property management details.",
            "Users",
            80,
            tag_list_1("Setup"),
            Some(String::from_str("/client/profile")),
            None,
        ),
    );
    sections.push(
        section(
            "inspection",
            "Inspection Date",
            "Schedule the site visit after documents are reviewed.",
            "ClipboardCheck",
            0,
            tag_list_1("Locked"),
            Some(String::from_str("/client/inspection")),
            Some(String::from_str("md:col-span-full bg-gray-50/50 grayscale opacity-60")),
        ),
    );
    proof {
        if property_type@ == bare_land() {
            assert forall|k: int|
                0 <= k < sections@.len() implies section_matches(
                #[trigger] sections@[k],
                hub_catalog(true)[k],
            ) by {}
        } else {
            assert forall|k: int|
                0 <= k < sections@.len() implies section_matches(
                #[trigger] sections@[k],
                hub_catalog(false)[k],
            ) by {}
        }
    }
    HubStatus { sections, overall_progress: 33 }
}

fn question(
    id: &str,
    question_text: &str,
    question_type: &str,
    is_mandatory: bool,
    help_text: Option<String>,
    depends_on_question_id: Option<String>,
    depends_on_value: Option<String>,
) -> (q: SurveyQuestion)
    ensures
        q.id@ == id@,
        q.section_id@ == "exterior"@,
        q.question_text@ == question_text@,
        q.question_type@ == question_type@,
        q.options is None,
        q.is_mandatory == is_mandatory,
        q.help_text == help_text,
        q.depends_on_question_id == depends_on_question_id,
        q.depends_on_value == depends_on_value,
{
    SurveyQuestion {
        id: String::from_str(id),
        section_id: String::from_str("exterior"),
        question_text: String::from_str(question_text),
        question_type: String::from_str(question_type),
        options: None,
        is_mandatory,
        help_text,
        depends_on_question_id,
        depends_on_value,
    }
}

/// The questions of a section: the exterior section asks its three fixed
/// questions (the second one gated on the first answering "true"); every
/// other section is empty.
pub fn get_section_questions(id: &str) -> (r: Vec<SurveyQuestion>)
    ensures
        id@ != "exterior"@ ==> r@.len() == 0,
        id@ == "exterior"@ ==> {
            &&& r@.len() == 3
            &&& r@[0].id@ == "ext-1"@
            &&& r@[0].question_text@ == "Has the roof been replaced since the last report?"@
            &&& r@[0].question_type@ == "boolean"@
            &&& r@[0].is_mandatory
            &&& r@[0].options is None
            &&& r@[0].help_text is None
            &&& r@[0].depends_on_question_id is None
            &&& r@[0].depends_on_value is None
            &&& r@[1].id@ == "ext-2"@
            &&& r@[1].question_text@ == "What year was the roof replaced?"@
            &&& r@[1].question_type@ == "text"@
            &&& r@[1].is_mandatory
            &&& r@[1].options is None
            &&& r@[1].help_text is Some
            &&& r@[1].help_text->0@ == "Enter 4-digit year"@
            &&& r@[1].depends_on_question_id is Some
            &&& r@[1].depends_on_question_id->0@ == "ext-1"@
            &&& r@[1].depends_on_value is Some
            &&& r@[1].depends_on_value->0@ == "true"@
            &&& r@[2].id@ == "ext-3"@
            &&& r@[2].question_text@ == "Are there any known leaks?"@
            &&& r@[2].question_type@ == "boolean"@
            &&& r@[2].is_mandatory
            &&& r@[2].options is None
            &&& r@[2].help_text is None
            &&& r@[2].depends_on_question_id is None
            &&& r@[2].depends_on_value is None
        },
        forall|k: int| 0 <= k < r@.len() ==> (#[trigger] r@[k]).section_id@ == "exterior"@,
{
    let mut r: Vec<SurveyQuestion> = Vec::new();
    if String::from_str(id) == String::from_str("exterior") {
        r.push(
            question(
                "ext-1",
                "Has the roof been replaced since the last report?",
                "boolean",
                true,
                None,
                None,
                None,
            ),
        );
        r.push(
            question(
                "ext-2",
                "What year was the roof replaced?",
                "text",
                true,
                Some(String::from_str("Enter 4-digit year")),
                Some(String::from_str("ext-1")),
                Some(String::from_str("true")),
            ),
        );
        r.push(
            question("ext-3", "Are there any known leaks?", "boolean", true, None, None, None),
        );
    }
    r
}

} // verus!
