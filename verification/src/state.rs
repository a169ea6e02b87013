//! The state behind the main window and how each user action changes it.
//! Where an action needs the file system, the caller does that part and
//! hands in what came of it.
use vstd::prelude::*;
use vstd::string::*;
use crate::gallery::{Filter, ImageItem, ImageMessage, PageChoice, picked_count, picked_names,
    selected_count, selected_names};
use crate::text::{decimal, signed_decimal, format_i32, format_u64};

verus! {

/// The color of the message line: neutral, success, or failure.
#[derive(Debug, Clone, Copy, PartialEq, Eq, Structural)]
pub enum MessageColor {
    Neutral,
    Success,
    Failure,
}

/// What the main window shows and holds.
pub struct MainState {
    pub pagechoice_value: PageChoice,
    pub mess_color: MessageColor,
    pub msg_value: String,
    pub dir_value: String,
    pub dirset: u32,
    pub size_value: String,
    pub filter: Filter,
    pub from_value: String,
    pub to_value: String,
    pub images: Vec<ImageItem>,
    pub scrol_value: String,
}

/// `item` with its picked state set to `completed`, all else kept.
pub open spec fn set_completed(item: ImageItem, completed: bool) -> ImageItem {
    ImageItem {
        description: item.description,
        completed,
        rgbconv: item.rgbconv,
        twidth: item.twidth,
        theight: item.theight,
        ticon: item.ticon,
    }
}

/// `after` differs from `before` at most in the message line and its color.
pub open spec fn only_message_changed(after: MainState, before: MainState) -> bool {
    after == (MainState { msg_value: after.msg_value, mess_color: after.mess_color, ..before })
}

/// The message line for a group of pictures on show.
pub open spec fn group_text(from: int, to: int, total: nat) -> Seq<char> {
    "from: "@ + signed_decimal(from) + "   to: "@ + signed_decimal(to) + "  of "@ + decimal(total)
        + " images"@
}

/// The message line once picked pictures passed the check before turning.
pub open spec fn picked_text(count: nat, first: Seq<char>) -> Seq<char> {
    decimal(count) + " images selected "@ + first
}

impl MainState {
    /// The state at start-up, from the program's first argument, if any, and
    /// whether that names something that exists.
    pub fn new(arg: Option<String>, arg_exists: bool) -> (r: Self)
        ensures
            r.pagechoice_value == PageChoice::MAIN,
            r.dirset == 0,
            r.size_value@ == "160"@,
            r.filter == Filter::All,
            r.from_value@ == "1"@,
            r.to_value@ == "16"@,
            r.images@.len() == 0,
            r.scrol_value@ == " No directory selected \n "@,
            match arg {
                None => {
                    &&& r.dir_value@ == "no directory"@
                    &&& r.mess_color == MessageColor::Neutral
                    &&& r.msg_value@ == " no input parameters"@
                },
                Some(a) => if arg_exists {
                    &&& r.dir_value@ == a@
                    &&& r.mess_color == MessageColor::Success
                    &&& r.msg_value@ == "got a existing item. Hopefully a directory"@
                } else {
                    &&& r.dir_value@ == "no directory"@
                    &&& r.mess_color == MessageColor::Failure
                    &&& r.msg_value@ == "parameter directory of "@ + a@ + " does not exist"@
                },
            },
    {
        let mut parmdir = String::from_str("no directory");
        let mut msgclr = MessageColor::Neutral;
        let msgval: String;
        match arg {
            Some(a) => {
                if arg_exists {
                    parmdir = a;
                    msgclr = MessageColor::Success;
                    msgval = String::from_str("got a existing item. Hopefully a directory");
                } else {
                    msgclr = MessageColor::Failure;
                    let mut m = String::from_str("parameter directory of ");
                    m.append(a.as_str());
                    m.append(" does not exist");
                    msgval = m;
                }
            },
            None => {
                msgval = String::from_str(" no input parameters");
            },
        }
        MainState {
            pagechoice_value: PageChoice::MAIN,
            mess_color: msgclr,
            msg_value: msgval,
            dir_value: parmdir,
            dirset: 0,
            size_value: String::from_str("160"),
            filter: Filter::All,
            from_value: String::from_str("1"),
            to_value: String::from_str("16"),
            images: Vec::new(),
            scrol_value: String::from_str(" No directory selected \n "),
        }
    }

    /// The user chose another filter: only the filter changes.
    pub fn filter_changed(&mut self, filter: Filter)
        ensures
            *final(self) == (MainState { filter, ..*old(self) }),
    {
        self.filter = filter;
    }

    /// The user typed in the "From" field.
    pub fn from_changed(&mut self, value: String)
        ensures
            *final(self) == (MainState { from_value: value, ..*old(self) }),
    {
        self.from_value = value;
    }

    /// The user typed in the "To" field.
    pub fn to_changed(&mut self, value: String)
        ensures
            *final(self) == (MainState { to_value: value, ..*old(self) }),
    {
        self.to_value = value;
    }

    /// The user typed in the "Icon Size" field.
    pub fn size_changed(&mut self, value: String)
        ensures
            *final(self) == (MainState { size_value: value, ..*old(self) }),
    {
        self.size_value = value;
    }

    /// The check box of thumbnail `i` reported: that thumbnail's picked state
    /// changes, where there is a thumbnail `i`; nothing else changes.
    pub fn image_message(&mut self, i: usize, message: ImageMessage)
        ensures
            i < old(self).images.len() ==> final(self).images@ == old(self).images@.update(
                i as int,
                set_completed(old(self).images@[i as int], message->Completed_0),
            ),
            i >= old(self).images.len() ==> final(self).images@ == old(self).images@,
            *final(self) == (MainState { images: final(self).images, ..*old(self) }),
    {
        if i < self.images.len() {
            let mut item = self.images.remove(i);
            let ghost before = item;
            item.update(message);
            assert(item == set_completed(before, message->Completed_0));
            self.images.insert(i, item);
            assert(self.images@ =~= old(self).images@.update(
                i as int,
                set_completed(old(self).images@[i as int], message->Completed_0),
            ));
        }
    }

    /// The user chose the gallery page.
    pub fn page_main_selected(&mut self)
        ensures
            final(self).pagechoice_value == PageChoice::MAIN,
            final(self).dirset == 0,
            final(self).mess_color == MessageColor::Success,
            final(self).msg_value@ == "page choice main selected"@,
            *final(self) == (MainState {
                msg_value: final(self).msg_value,
                mess_color: MessageColor::Success,
                dirset: 0,
                pagechoice_value: PageChoice::MAIN,
                ..*old(self)
            }),
    {
        self.msg_value = String::from_str("page choice main selected");
        self.dirset = 0;
        self.pagechoice_value = PageChoice::MAIN;
        self.mess_color = MessageColor::Success;
    }

    /// The user chose the directory page; the caller listed the directory
    /// for it, with this code and message. The message line tells of a
    /// failed listing; the color is the success color either way.
    pub fn page_directory_selected(&mut self, listing_code: u32, listing_message: String)
        ensures
            final(self).pagechoice_value == PageChoice::GD,
            final(self).dirset == 1,
            final(self).mess_color == MessageColor::Success,
            final(self).msg_value@ == (if listing_code == 0 {
                "get directory selected"@
            } else {
                listing_message@
            }),
            *final(self) == (MainState {
                msg_value: final(self).msg_value,
                mess_color: MessageColor::Success,
                dirset: 1,
                pagechoice_value: PageChoice::GD,
                ..*old(self)
            }),
    {
        if listing_code == 0 {
            self.msg_value = String::from_str("get directory selected");
        } else {
            self.msg_value = listing_message;
        }
        self.dirset = 1;
        self.pagechoice_value = PageChoice::GD;
        self.mess_color = MessageColor::Success;
    }

    /// A group of pictures was listed with this code and message; on success
    /// it runs from `from` to `to` of `total`, and `items` are its thumbnails,
    /// which replace the gallery. On failure only the message line changes.
    pub fn group_listed(&mut self, errcd: u32, errstr: String, from: i32, to: i32, total: usize, items: Vec<ImageItem>)
        ensures
            errcd == 0 ==> {
                &&& final(self).msg_value@ == group_text(from as int, to as int, total as nat)
                &&& final(self).mess_color == MessageColor::Success
                &&& final(self).images@ == items@
            },
            errcd != 0 ==> {
                &&& final(self).msg_value@ == errstr@
                &&& final(self).mess_color == MessageColor::Failure
                &&& final(self).images@ == old(self).images@
            },
            *final(self) == (MainState {
                msg_value: final(self).msg_value,
                mess_color: final(self).mess_color,
                images: final(self).images,
                ..*old(self)
            }),
    {
        if errcd == 0 {
            let mut m = String::from_str("from: ");
            let f = format_i32(from);
            m.append(f.as_str());
            m.append("   to: ");
            let t = format_i32(to);
            m.append(t.as_str());
            m.append("  of ");
            let n = format_u64(total as u64);
            m.append(n.as_str());
            m.append(" images");
            assert(m@ =~= group_text(from as int, to as int, total as nat));
            self.msg_value = m;
            self.images = items;
            self.mess_color = MessageColor::Success;
        } else {
            self.msg_value = errstr;
            self.mess_color = MessageColor::Failure;
        }
    }

    /// "Next Group" or "First Group" moved the range: on success the fields
    /// take the new bounds.
    pub fn range_moved(&mut self, fromstr: String, tostr: String)
        ensures
            *final(self) == (MainState { from_value: fromstr, to_value: tostr, ..*old(self) }),
    {
        self.from_value = fromstr;
        self.to_value = tostr;
    }

    /// "Next Group" ended with this code, message and field texts: on
    /// success the fields take the new bounds; otherwise the message line
    /// shows the error in the failure color.
    pub fn next_group_finished(&mut self, code: u32, msg: String, fromstr: String, tostr: String)
        ensures
            code == 0 ==> *final(self) == (MainState { from_value: fromstr, to_value: tostr, ..*old(self) }),
            code != 0 ==> *final(self) == (MainState {
                msg_value: msg,
                mess_color: MessageColor::Failure,
                ..*old(self)
            }),
    {
        if code == 0 {
            self.range_moved(fromstr, tostr);
        } else {
            self.step_failed(msg);
        }
    }

    /// A step failed before any listing: its message, in the failure color.
    pub fn step_failed(&mut self, errstr: String)
        ensures
            final(self).msg_value == errstr,
            final(self).mess_color == MessageColor::Failure,
            only_message_changed(*final(self), *old(self)),
    {
        self.msg_value = errstr;
        self.mess_color = MessageColor::Failure;
    }

    /// A turn was asked for: the names of the picked pictures, in gallery
    /// order, where there is one; otherwise the message line says that none
    /// is picked and there is nothing to turn.
    pub fn rotation_request(&mut self) -> (r: Option<Vec<String>>)
        ensures
            picked_count(old(self).images@) == 0 <==> r is None,
            r is None ==> final(self).msg_value@ == "no images selected"@ && final(self).mess_color
                == MessageColor::Failure,
            r is Some ==> final(self).msg_value == old(self).msg_value && final(self).mess_color
                == old(self).mess_color,
            r matches Some(names) ==> names@.map_values(|s: String| s@) == picked_names(old(self).images@),
            only_message_changed(*final(self), *old(self)),
    {
        let images_left = selected_count(&self.images);
        if images_left < 1 {
            self.msg_value = String::from_str("no images selected");
            self.mess_color = MessageColor::Failure;
            None
        } else {
            Some(selected_names(&self.images))
        }
    }

    /// The picked pictures were checked before turning, with this code and
    /// message; `names` are the picked names. Gives whether to go on.
    pub fn rotation_checked(&mut self, names: &Vec<String>, errcode: u32, errstr: String) -> (r: bool)
        requires
            names.len() > 0,
        ensures
            r == (errcode == 0),
            errcode == 0 ==> {
                &&& final(self).msg_value@ == picked_text(names.len() as nat, names@[0]@)
                &&& final(self).mess_color == MessageColor::Success
            },
            errcode != 0 ==> {
                &&& final(self).msg_value@ == errstr@
                &&& final(self).mess_color == MessageColor::Failure
            },
            only_message_changed(*final(self), *old(self)),
    {
        if errcode == 0 {
            let mut m = format_u64(names.len() as u64);
            m.append(" images selected ");
            m.append(names[0].as_str());
            assert(m@ =~= picked_text(names.len() as nat, names@[0]@));
            self.msg_value = m;
            self.mess_color = MessageColor::Success;
            true
        } else {
            self.msg_value = errstr;
            self.mess_color = MessageColor::Failure;
            false
        }
    }

    /// A turning run ended with this code and message.
    pub fn rotation_finished(&mut self, code: u32, message: String)
        ensures
            final(self).msg_value == message,
            final(self).mess_color == (if code == 0 {
                MessageColor::Success
            } else {
                MessageColor::Failure
            }),
            only_message_changed(*final(self), *old(self)),
    {
        self.msg_value = message;
        if code == 0 {
            self.mess_color = MessageColor::Success;
        } else {
            self.mess_color = MessageColor::Failure;
        }
    }

    /// The directory chooser listed a directory with this code and message:
    /// the message line shows the message, in the color of the outcome.
    pub fn chooser_listed(&mut self, errcd: u32, errstr: String)
        ensures
            final(self).msg_value == errstr,
            final(self).mess_color == (if errcd == 0 {
                MessageColor::Success
            } else {
                MessageColor::Failure
            }),
            only_message_changed(*final(self), *old(self)),
    {
        self.msg_value = errstr;
        if errcd == 0 {
            self.mess_color = MessageColor::Success;
        } else {
            self.mess_color = MessageColor::Failure;
        }
    }

    /// "Set Directory" with the chooser's directory `a_dir`, whether it
    /// exists, and, where it exists and the chooser page is open, the code,
    /// message and text of its listing. An existing directory becomes the
    /// gallery's directory while the chooser page is open; a good listing
    /// then returns to the gallery page.
    pub fn directory_set(&mut self, a_dir: String, exists: bool, listing: Option<(u32, String, String)>)
        requires
            (exists && old(self).dirset == 1) <==> listing is Some,
        ensures
            !exists ==> {
                &&& final(self).msg_value@ == "directory "@ + a_dir@ + " does not exist"@
                &&& final(self).mess_color == MessageColor::Failure
                &&& final(self).dir_value == old(self).dir_value
                &&& final(self).pagechoice_value == old(self).pagechoice_value
            },
            exists && old(self).dirset != 1 ==> {
                &&& final(self).msg_value@ == "directory has been set with "@ + a_dir@
                &&& final(self).mess_color == old(self).mess_color
                &&& final(self).dir_value == old(self).dir_value
                &&& final(self).pagechoice_value == old(self).pagechoice_value
            },
            listing matches Some((code, msg, text)) ==> {
                &&& final(self).dir_value == a_dir
                &&& code == 0 ==> {
                    &&& final(self).msg_value@ == "directory has been set with "@ + a_dir@
                    &&& final(self).scrol_value == text
                    &&& final(self).mess_color == MessageColor::Success
                    &&& final(self).pagechoice_value == PageChoice::MAIN
                }
                &&& code != 0 ==> {
                    &&& final(self).msg_value == msg
                    &&& final(self).mess_color == MessageColor::Failure
                    &&& final(self).pagechoice_value == old(self).pagechoice_value
                    &&& final(self).scrol_value == old(self).scrol_value
                }
            },
            listing is None ==> final(self).scrol_value == old(self).scrol_value,
            *final(self) == (MainState {
                msg_value: final(self).msg_value,
                mess_color: final(self).mess_color,
                dir_value: final(self).dir_value,
                scrol_value: final(self).scrol_value,
                pagechoice_value: final(self).pagechoice_value,
                ..*old(self)
            }),
    {
        if exists {
            let mut m = String::from_str("directory has been set with ");
            m.append(a_dir.as_str());
            self.msg_value = m;
            match listing {
                Some((code, msg, text)) => {
                    self.dir_value = a_dir;
                    if code == 0 {
                        self.scrol_value = text;
                        self.mess_color = MessageColor::Success;
                        self.pagechoice_value = PageChoice::MAIN;
                    } else {
                        self.mess_color = MessageColor::Failure;
                        self.msg_value = msg;
                    }
                },
                None => {},
            }
        } else {
            let mut m = String::from_str("directory ");
            m.append(a_dir.as_str());
            m.append(" does not exist");
            self.msg_value = m;
            self.mess_color = MessageColor::Failure;
        }
    }
}

/// Checking a box and then setting it back to what it was gives back the
/// very same thumbnails.
pub proof fn lemma_toggle_back(images: Seq<ImageItem>, i: int, completed: bool)
    requires
        0 <= i < images.len(),
    ensures
        images.update(i, set_completed(images[i], completed)).update(
            i,
            set_completed(images.update(i, set_completed(images[i], completed))[i], images[i].completed),
        ) == images,
{
    let once = images.update(i, set_completed(images[i], completed));
    let twice = once.update(i, set_completed(once[i], images[i].completed));
    assert(twice =~= images);
}

/// Picking a thumbnail that was not picked raises the picked count by one;
/// unpicking a picked one lowers it by one.
pub proof fn lemma_pick_count(images: Seq<ImageItem>, i: int, completed: bool)
    requires
        0 <= i < images.len(),
    ensures
        picked_count(images.update(i, set_completed(images[i], completed))) == picked_count(images)
            - (if images[i].completed { 1int } else { 0int }) + (if completed { 1int } else { 0int }),
    decreases images.len(),
{
    let after = images.update(i, set_completed(images[i], completed));
    if i == images.len() - 1 {
        assert(after.drop_last() =~= images.drop_last());
    } else {
        lemma_pick_count(images.drop_last(), i, completed);
        assert(after.drop_last() =~= images.drop_last().update(
            i,
            set_completed(images.drop_last()[i], completed),
        ));
    }
}

} // verus!
