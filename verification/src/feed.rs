use vstd::prelude::*;

verus! {

/// A named, URL-addressed subscription source, optionally nested under a
/// category path (outermost to innermost).
#[derive(Debug, Clone)]
pub struct Feed {
    pub title: String,
    pub xml_url: String,
    pub html_url: Option<String>,
    pub category: Vec<String>,
}

/// The mathematical value of a `Feed`: every field as a sequence of
/// characters.
pub struct FeedView {
    pub title: Seq<char>,
    pub xml_url: Seq<char>,
    pub html_url: Option<Seq<char>>,
    pub category: Seq<Seq<char>>,
}

impl View for Feed {
    type V = FeedView;

    open spec fn view(&self) -> FeedView {
        FeedView {
            title: self.title@,
            xml_url: self.xml_url@,
            html_url: self.html_url.deep_view(),
            category: self.category.deep_view(),
        }
    }
}

/// The views of a list of feeds.
pub open spec fn feeds_view(feeds: Seq<Feed>) -> Seq<FeedView> {
    feeds.map_values(|f: Feed| f@)
}

impl Feed {
    pub fn new(
        title: String,
        xml_url: String,
        html_url: Option<String>,
        category: Vec<String>,
    ) -> (f: Feed)
        ensures
            f.title == title,
            f.xml_url == xml_url,
            f.html_url == html_url,
            f.category == category,
    {
        Feed { title, xml_url, html_url, category }
    }

    /// Copies the feed, field by field.
    pub fn duplicate(&self) -> (f: Feed)
        ensures
            f@ == self@,
    {
        let html_url = match &self.html_url {
            Some(u) => Some(u.clone()),
            None => None,
        };
        let f = Feed {
            title: self.title.clone(),
            xml_url: self.xml_url.clone(),
            html_url,
            category: crate::strutil::clone_strings(&self.category),
        };
        proof {
            assert(f@ == self@);
        }
        f
    }
}

} // verus!
